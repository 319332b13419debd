use server::form::join_with_commas;
use server::form::{bool_string, i32_text, u64_text};
use server::openapi::{ErrorResponse, ErrorResponseError, Operation, QueryInputSchema};
use server::openapi::{
    ActiveRunResponse, MeDemoAuthenticated, MeDemoUnauthenticated, MeNeoshowcaseAuthenticated,
    MeNeoshowcaseUnauthenticated, NullValue,
};
use server::openapi::{
    AnswerInputSchema, Asset, BestRecord, IncorrectAnswerResponse, ProblemHintResponse,
    ProblemResponse, Progress, ProgressStatus, RoomItem, User,
};

#[test]
fn value_bodies_are_read_from_their_form() {
    let record: BestRecord = "elapsed_ms,1500,rank,2,query_count,9".parse().expect("valid form");
    assert_eq!((record.elapsed_ms, record.rank, record.query_count), (1500, 2, 9));

    let asset: Asset = "alt,a cat,type,image,url,/a.png".parse().expect("valid form");
    assert_eq!(asset.r_type, "image");
    assert_eq!(asset.url, "/a.png");
    assert_eq!(asset.alt, "a cat");

    let progress: Progress = "status,active,cleared_count,1,required_count,4"
        .parse()
        .expect("valid form");
    assert_eq!(progress.status, ProgressStatus::Active);

    let user: User = "id,11111111-1111-4111-8111-111111111111,display_name,guest"
        .parse()
        .expect("valid form");
    assert_eq!(user.id, 0x11111111_1111_4111_8111_111111111111);
}

#[test]
fn first_value_of_a_repeated_key_wins() {
    let record: BestRecord = "elapsed_ms,1,elapsed_ms,2,rank,1,query_count,0"
        .parse()
        .expect("valid form");
    assert_eq!(record.elapsed_ms, 1);
}

#[test]
fn form_errors_are_reported_in_reading_order() {
    assert_eq!(
        "rank,2".parse::<BestRecord>(),
        Err("elapsed_ms missing in BestRecord".to_owned())
    );
    assert_eq!(
        "rank".parse::<BestRecord>(),
        Err("Missing value while parsing BestRecord".to_owned())
    );
    assert_eq!(
        "".parse::<BestRecord>(),
        Err("Missing value while parsing BestRecord".to_owned())
    );
    assert_eq!(
        "speed,1,rank".parse::<BestRecord>(),
        Err("Unexpected key while parsing BestRecord".to_owned())
    );
    assert_eq!(
        "rank,x".parse::<BestRecord>(),
        Err("invalid digit found in string".to_owned())
    );
    assert_eq!(
        "status,done".parse::<Progress>(),
        Err("Value not valid: done".to_owned())
    );
}

#[test]
fn bodies_with_lists_nested_bodies_or_nullable_fields_never_parse() {
    assert_eq!(
        "assets,x".parse::<ProblemResponse>(),
        Err("Parsing a container in this style is not supported in ProblemResponse".to_owned())
    );
    assert_eq!(
        "input_schema,x".parse::<ProblemResponse>(),
        Err("Missing value while parsing ProblemInputSchema".to_owned())
    );
    assert_eq!(
        "id,11111111-1111-4111-8111-111111111111,number,1,type,small,title,t,body_markdown,b,submission_type,string,status,locked,hint_count,0"
            .parse::<ProblemResponse>(),
        Err("assets missing in ProblemResponse".to_owned())
    );
    assert_eq!(
        "best_record,x".parse::<RoomItem>(),
        Err("Parsing a nullable type in this style is not supported in RoomItem".to_owned())
    );
    assert_eq!(
        "name,n".parse::<RoomItem>(),
        Err("room_id missing in RoomItem".to_owned())
    );
}

#[test]
fn texts_are_joined_by_commas() {
    assert_eq!(join_with_commas(&vec![]), "");
    assert_eq!(join_with_commas(&vec!["a".to_owned()]), "a");
    assert_eq!(join_with_commas(&vec!["a".to_owned(), "".to_owned(), "c".to_owned()]), "a,,c");
}

#[test]
fn numbers_and_booleans_are_written_in_decimal_and_words() {
    assert_eq!(u64_text(0), "0");
    assert_eq!(u64_text(u64::MAX), u64::MAX.to_string());
    assert_eq!(i32_text(-42), "-42");
    assert_eq!(i32_text(i32::MIN), i32::MIN.to_string());
    assert_eq!(i32_text(7), "7");
    assert_eq!(bool_string(true), "true");
    assert_eq!(bool_string(false), "false");
}

#[test]
fn bodies_are_written_as_their_plain_pairs() {
    let schema = QueryInputSchema {
        r_type: "operation_sequence".to_owned(),
        allowed_controls: vec!["up".to_owned(), "down".to_owned()],
        max_operations: 8,
    };
    assert_eq!(
        schema.to_string(),
        "type,operation_sequence,allowed_controls,up,down,max_operations,8"
    );
    let operation = Operation { control: "left".to_owned(), count: -2 };
    assert_eq!(operation.to_string(), "control,left,count,-2");
    let record = BestRecord::new(1500, 2, 9);
    assert_eq!(record.to_string(), "elapsed_ms,1500,rank,2,query_count,9");
    let back: BestRecord = record.to_string().parse().expect("written form reads back");
    assert_eq!(back, record);
    let user = User::new(5, "alice".to_owned());
    assert_eq!(user.to_string(), "display_name,alice");
    let error = ErrorResponse::new(ErrorResponseError::new(
        "X".to_owned(),
        "y".to_owned(),
        serde_json::Value::Null,
    ));
    assert_eq!(error.to_string(), "");
}

#[test]
fn plain_bodies_read_back_from_their_written_form() {
    let operation = Operation { control: "left".to_owned(), count: -2 };
    let back: Operation = operation.to_string().parse().expect("written form reads back");
    assert_eq!(back, operation);

    let schema = AnswerInputSchema { r_type: "string".to_owned(), max_length: i32::MIN };
    let back: AnswerInputSchema = schema.to_string().parse().expect("written form reads back");
    assert_eq!(back, schema);

    let reply = IncorrectAnswerResponse {
        correct: false,
        answer_attempt_count: 3,
        problem_status: "available".to_owned(),
        run_status: "active".to_owned(),
    };
    let back: IncorrectAnswerResponse = reply.to_string().parse().expect("written form reads back");
    assert_eq!(back, reply);

    let hint = ProblemHintResponse { level: 1, body_markdown: "look up".to_owned() };
    let back: ProblemHintResponse = hint.to_string().parse().expect("written form reads back");
    assert_eq!(back, hint);

    let record = BestRecord::new(u64::MAX, u32::MAX, 0);
    let back: BestRecord = record.to_string().parse().expect("written form reads back");
    assert_eq!(back, record);

    // A text with a comma splits into pieces of its own and does not read back.
    let asset = Asset { r_type: "image".to_owned(), url: "/a.png".to_owned(), alt: "a, b".to_owned() };
    assert!(asset.to_string().parse::<Asset>().is_err());
}

#[test]
fn numbers_are_read_by_their_decimal_grammar() {
    let record: BestRecord = "elapsed_ms,+007,rank,0,query_count,18446744073709551615"
        .parse()
        .expect("valid form");
    assert_eq!((record.elapsed_ms, record.rank, record.query_count), (7, 0, u64::MAX));
    assert!("elapsed_ms,-1,rank,0,query_count,0".parse::<BestRecord>().is_err());
    assert!("elapsed_ms, 1,rank,0,query_count,0".parse::<BestRecord>().is_err());
    assert!("elapsed_ms,1,rank,4294967296,query_count,0".parse::<BestRecord>().is_err());
    let hint: ProblemHintResponse = "level,-3,body_markdown,x".parse().expect("valid form");
    assert_eq!(hint.level, -3);
    assert!("level,-,body_markdown,x".parse::<ProblemHintResponse>().is_err());
}

#[test]
fn active_run_responses_never_parse_from_their_form() {
    assert_eq!(
        "status,active,started_at,2024-01-02T03:04:05Z,elapsed_ms,5".parse::<ActiveRunResponse>(),
        Err("cleared_problem_ids missing in ActiveRunResponse".to_owned())
    );
    assert_eq!(
        "status,active,cleared_problem_ids,x".parse::<ActiveRunResponse>(),
        Err("Parsing a container in this style is not supported in ActiveRunResponse".to_owned())
    );
    let bad_time = "started_at,yesterday,cleared_problem_ids,x".parse::<ActiveRunResponse>();
    assert!(bad_time.is_err());
    assert_ne!(
        bad_time,
        Err("Parsing a container in this style is not supported in ActiveRunResponse".to_owned())
    );
}

#[test]
fn me_bodies_read_null_fields_as_null() {
    let me: MeDemoUnauthenticated =
        "authenticated,false,auth_mode,demo,user,null,login_url,null,logout_url,null"
            .parse()
            .expect("valid form");
    assert!(!me.authenticated);
    assert_eq!(me.auth_mode, "demo");
    assert_eq!(me.user, NullValue);
    let me: MeNeoshowcaseUnauthenticated =
        "authenticated,false,auth_mode,neoshowcase,user,null,login_url,/login,logout_url,null"
            .parse()
            .expect("valid form");
    assert_eq!(me.login_url, "/login");
    assert_eq!(
        "authenticated,false,auth_mode,demo,user,nil".parse::<MeDemoUnauthenticated>(),
        Err("Value not valid: nil".to_owned())
    );
    assert_eq!(
        "authenticated,true,auth_mode,demo".parse::<MeDemoAuthenticated>(),
        Err("user missing in MeDemoAuthenticated".to_owned())
    );
    assert_eq!(
        "user,x".parse::<MeNeoshowcaseAuthenticated>(),
        Err("Missing value while parsing User".to_owned())
    );
}

#[test]
fn error_details_are_read_as_json_text() {
    let error: ErrorResponseError = "code,X,message,y,details,{}".parse().expect("valid form");
    assert_eq!(error.code, "X");
    assert_eq!(error.message, "y");
    assert_eq!(error.details, serde_json::Value::String("{}".to_owned()));
    match "code,X,message,y".parse::<ErrorResponseError>() {
        Err(e) => assert_eq!(e, "details missing in ErrorResponseError"),
        Ok(_) => panic!("details are required"),
    }
}
