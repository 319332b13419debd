use server::problem::ProblemDataError;
use server::problem::model::{
    AnswerInputSchema, AnswerInputType, InputSchema, JudgeConfig, Problem, ProblemCatalog,
    ProblemType, QueryInputSchema, QueryInputType, Room, StringNormalization, SubmissionType,
    UnicodeNormalization,
};
use server::problem::validation::validate_catalog;

fn new_id() -> u128 {
    uuid::Uuid::new_v4().as_u128()
}

fn problem(room_id: u128, number: i32, problem_type: ProblemType, depends: Option<u128>) -> Problem {
    Problem {
        problem_id: new_id(),
        room_id,
        number,
        problem_type,
        title: format!("problem {number}"),
        body_markdown: "本文".to_owned(),
        submission_type: SubmissionType::String,
        assets: vec![],
        input_schema: InputSchema {
            query: QueryInputSchema {
                input_type: QueryInputType::OperationSequence,
                allowed_controls: vec!["down".to_owned()],
                max_operations: 10,
            },
            answer: AnswerInputSchema {
                input_type: AnswerInputType::String,
                max_length: 50,
            },
        },
        hints: vec![],
        judge_config: JudgeConfig::String {
            accepted_answers: vec!["answer".to_owned()],
            normalization: StringNormalization {
                unicode: UnicodeNormalization::Nfkc,
                trim_outer_whitespace: true,
                collapse_internal_whitespace: true,
                case_sensitive: false,
            },
        },
        depends_on_problem_id: depends,
        is_required: true,
    }
}

fn room(number: i32) -> Room {
    let room_id = new_id();
    let first = problem(room_id, 1, ProblemType::Small, None);
    let second = problem(room_id, 2, ProblemType::Small, Some(first.problem_id));
    let third = problem(room_id, 3, ProblemType::Small, Some(second.problem_id));
    let last = problem(room_id, 4, ProblemType::Final, None);
    Room {
        room_id,
        number,
        name: format!("room {number}"),
        genre: "謎".to_owned(),
        description: "説明".to_owned(),
        problems: vec![first, second, third, last],
    }
}

fn valid_catalog() -> ProblemCatalog {
    ProblemCatalog {
        rooms: vec![room(1)],
    }
}

fn assert_validation_error(catalog: &ProblemCatalog, expected_field: &str, expected_message: &str) {
    match validate_catalog(catalog).expect_err("validation should fail") {
        ProblemDataError::Validation { field, message } => {
            assert_eq!(field, expected_field);
            assert_eq!(message, expected_message);
        }
        other => panic!("unexpected error: {other:?}"),
    }
}

#[test]
fn valid_catalog_is_accepted() {
    assert!(validate_catalog(&valid_catalog()).is_ok());
    let two_rooms = ProblemCatalog {
        rooms: vec![room(1), room(2)],
    };
    assert!(validate_catalog(&two_rooms).is_ok());
}

#[test]
fn duplicate_problem_number_is_rejected() {
    let mut catalog = valid_catalog();

    catalog.rooms[0].problems[1].number = catalog.rooms[0].problems[0].number;

    assert_validation_error(
        &catalog,
        "rooms[0].problems[1].number",
        "problem number must not be duplicated within a room",
    );
}

#[test]
fn missing_dependency_is_rejected() {
    let mut catalog = valid_catalog();

    catalog.rooms[0].problems[1].depends_on_problem_id = Some(new_id());

    assert_validation_error(
        &catalog,
        "rooms[0].problems[1].depends_on_problem_id",
        "dependency must reference an existing problem",
    );
}

#[test]
fn self_dependency_is_rejected() {
    let mut catalog = valid_catalog();
    let problem_id = catalog.rooms[0].problems[1].problem_id;

    catalog.rooms[0].problems[1].depends_on_problem_id = Some(problem_id);

    assert_validation_error(
        &catalog,
        "rooms[0].problems[1].depends_on_problem_id",
        "problem must not depend on itself",
    );
}

#[test]
fn cross_room_dependency_is_rejected() {
    let mut catalog = valid_catalog();
    let mut second_room = catalog.rooms[0].clone();

    second_room.room_id = new_id();
    second_room.number = 2;

    let second_room_problem_ids = (0..second_room.problems.len())
        .map(|_| new_id())
        .collect::<Vec<_>>();

    for (index, problem) in second_room.problems.iter_mut().enumerate() {
        problem.problem_id = second_room_problem_ids[index];
        problem.room_id = second_room.room_id;
    }

    second_room.problems[0].depends_on_problem_id = None;
    second_room.problems[1].depends_on_problem_id = Some(second_room_problem_ids[0]);
    second_room.problems[2].depends_on_problem_id = Some(second_room_problem_ids[1]);
    second_room.problems[3].depends_on_problem_id = None;

    let dependency_id = second_room.problems[0].problem_id;
    catalog.rooms.push(second_room);

    catalog.rooms[0].problems[1].depends_on_problem_id = Some(dependency_id);

    assert_validation_error(
        &catalog,
        "rooms[0].problems[1].depends_on_problem_id",
        "dependency must reference a problem in the same room",
    );
}

#[test]
fn dependency_cycle_is_rejected() {
    let mut catalog = valid_catalog();
    let third_problem_id = catalog.rooms[0].problems[2].problem_id;

    catalog.rooms[0].problems[0].depends_on_problem_id = Some(third_problem_id);

    assert_validation_error(
        &catalog,
        "rooms[0].problems[0].depends_on_problem_id",
        "problem dependencies must not contain a cycle",
    );
}

#[test]
fn invalid_small_problem_unlock_order_is_rejected() {
    let mut catalog = valid_catalog();
    let first_problem_id = catalog.rooms[0].problems[0].problem_id;

    catalog.rooms[0].problems[2].depends_on_problem_id = Some(first_problem_id);

    assert_validation_error(
        &catalog,
        "rooms[0].problems[2].depends_on_problem_id",
        "small problems must unlock in ascending number order",
    );
}

#[test]
fn validation_final_problem_dependency_is_rejected() {
    let mut catalog = valid_catalog();
    let third_problem_id = catalog.rooms[0].problems[2].problem_id;

    catalog.rooms[0].problems[3].depends_on_problem_id = Some(third_problem_id);

    assert_validation_error(
        &catalog,
        "rooms[0].problems[3].depends_on_problem_id",
        "final problem must not have a dependency",
    );
}

#[test]
fn catalog_shape_is_checked() {
    assert_validation_error(
        &ProblemCatalog { rooms: vec![] },
        "rooms",
        "at least one room is required",
    );

    let mut catalog = ProblemCatalog {
        rooms: vec![room(1), room(1)],
    };
    assert_validation_error(&catalog, "rooms[1].number", "room number must not be duplicated");

    catalog.rooms[1].number = 2;
    catalog.rooms[1].problems[3].problem_type = ProblemType::Small;
    assert_validation_error(
        &catalog,
        "rooms[1].problems",
        "each room must contain three small problems and one final problem",
    );

    let mut catalog = valid_catalog();
    catalog.rooms[0].problems[2].is_required = false;
    assert_validation_error(
        &catalog,
        "rooms[0].problems[2].is_required",
        "the required four-problem set must use is_required true",
    );
}
