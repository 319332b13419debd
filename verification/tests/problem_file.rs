use server::problem::ProblemDataError;
use server::problem::model::{
    AnswerInputSchema, AnswerInputType, Asset, Candidate, Hint, InputSchema, JudgeConfig,
    JudgeConfigInput, Operation, ProblemInput, ProblemType, QueryInputSchema, QueryInputType,
    RoomFileInput, RoomInput, SubmissionType,
};
use server::problem::problem_file::{
    AssetFile, ImageFormat, MAX_ASSET_SIZE, asset_file_name, detect_image_format, parse_uuid,
    validate_asset, validate_problem, validate_room_file,
};

const PNG: &[u8] = b"\x89PNG\r\n\x1a\n";

fn assert_problem_data_error(
    error: ProblemDataError,
    expected_field: &str,
    expected_message: &str,
) {
    match error {
        ProblemDataError::Validation { field, message } => {
            assert_eq!(field, expected_field);
            assert_eq!(message, expected_message);
        }
        other => panic!("unexpected error: {other:?}"),
    }
}

fn new_id() -> u128 {
    uuid::Uuid::new_v4().as_u128()
}

fn text(id: u128) -> String {
    uuid::Uuid::from_u128(id).to_string()
}

fn image_asset(room_id: u128, file_name: &str) -> Asset {
    Asset {
        asset_type: "image".to_owned(),
        object_key: format!("/assets/problems/{}/{file_name}", text(room_id)),
        alt: "問題資料".to_owned(),
    }
}

fn png_file(size: u64) -> AssetFile {
    AssetFile::Regular {
        size,
        contents: PNG.to_vec(),
    }
}

#[test]
fn valid_png_asset_is_accepted() {
    let room_id = new_id();
    let asset = image_asset(room_id, "image.png");

    validate_asset(&asset, room_id, &png_file(8), "problems[0].assets[0]")
        .expect("valid PNG should be accepted");
}

#[test]
fn asset_url_with_wrong_room_id_is_rejected() {
    let room_id = new_id();
    let asset = image_asset(new_id(), "image.png");

    let error = validate_asset(&asset, room_id, &png_file(8), "problems[0].assets[0]")
        .expect_err("wrong room ID should be rejected");

    assert_problem_data_error(
        error,
        "problems[0].assets[0].url",
        "asset URL must contain its parent room ID",
    );
}

#[test]
fn asset_path_traversal_is_rejected() {
    let room_id = new_id();
    let asset = image_asset(room_id, "../image.png");

    let error = validate_asset(&asset, room_id, &AssetFile::Missing, "problems[0].assets[0]")
        .expect_err("path traversal should be rejected");

    assert_problem_data_error(
        error,
        "problems[0].assets[0].url",
        "asset file name has an invalid format",
    );
}

#[test]
fn missing_asset_file_is_rejected() {
    let room_id = new_id();
    let asset = image_asset(room_id, "missing.png");

    let error = validate_asset(&asset, room_id, &AssetFile::Missing, "problems[0].assets[0]")
        .expect_err("missing file should be rejected");

    assert_problem_data_error(error, "problems[0].assets[0].url", "asset file must exist");
}

#[test]
fn asset_extension_must_match_file_signature() {
    let room_id = new_id();
    let asset = image_asset(room_id, "image.png");
    let file = AssetFile::Regular {
        size: 3,
        contents: vec![0xff, 0xd8, 0xff],
    };

    let error = validate_asset(&asset, room_id, &file, "problems[0].assets[0]")
        .expect_err("signature mismatch should be rejected");

    assert_problem_data_error(
        error,
        "problems[0].assets[0].url",
        "asset extension must match its file content",
    );
}

#[test]
fn asset_size_limit_is_enforced() {
    let room_id = new_id();
    let asset = image_asset(room_id, "image.png");

    let mut maximum_size_data = vec![0; MAX_ASSET_SIZE as usize];
    maximum_size_data[..8].copy_from_slice(PNG);

    let file = AssetFile::Regular {
        size: MAX_ASSET_SIZE,
        contents: maximum_size_data.clone(),
    };
    validate_asset(&asset, room_id, &file, "problems[0].assets[0]")
        .expect("asset at exactly 5 MiB should be accepted");

    maximum_size_data.push(0);

    let file = AssetFile::Regular {
        size: MAX_ASSET_SIZE + 1,
        contents: maximum_size_data,
    };
    let error = validate_asset(&asset, room_id, &file, "problems[0].assets[0]")
        .expect_err("asset over 5 MiB should be rejected");

    assert_problem_data_error(
        error,
        "problems[0].assets[0].url",
        "asset file must not exceed 5 MiB",
    );
}

#[test]
fn asset_file_names_follow_the_rules() {
    let room_id = new_id();
    let prefix = format!("/assets/problems/{}/", text(room_id));
    assert_eq!(
        asset_file_name(&format!("{prefix}photo-1_a.jpeg"), room_id),
        Some("photo-1_a.jpeg".chars().collect())
    );
    for bad in ["Photo.png", "_a.png", "a..png", "", "a b.png"] {
        assert_eq!(asset_file_name(&format!("{prefix}{bad}"), room_id), None, "{bad}");
    }
    assert_eq!(asset_file_name("/assets/problems/other/a.png", room_id), None);
}

#[test]
fn asset_extensions_and_file_kinds_are_checked() {
    let room_id = new_id();
    let field = "problems[2].assets[1]";

    let error = validate_asset(&image_asset(room_id, "a.gif"), room_id, &png_file(8), field)
        .expect_err("gif should be rejected");
    assert_problem_data_error(
        error,
        "problems[2].assets[1].url",
        "asset extension must be png, jpg, jpeg, or webp",
    );

    let error = validate_asset(&image_asset(room_id, "a.png"), room_id, &AssetFile::NotRegularFile, field)
        .expect_err("directory should be rejected");
    assert_problem_data_error(
        error,
        "problems[2].assets[1].url",
        "asset path must point to a regular file",
    );

    let file = AssetFile::Regular {
        size: 4,
        contents: b"GIF8".to_vec(),
    };
    let error = validate_asset(&image_asset(room_id, "a.jpg"), room_id, &file, field)
        .expect_err("unknown content should be rejected");
    assert_problem_data_error(
        error,
        "problems[2].assets[1].url",
        "asset file must be PNG, JPEG, or WebP",
    );

    let webp = AssetFile::Regular {
        size: 12,
        contents: b"RIFF\0\0\0\0WEBP".to_vec(),
    };
    assert!(validate_asset(&image_asset(room_id, "a.webp"), room_id, &webp, field).is_ok());

    let unreadable = AssetFile::Unreadable {
        size: 10,
        path: "assets/a.png".to_owned(),
        message: "permission denied".to_owned(),
    };
    match validate_asset(&image_asset(room_id, "a.png"), room_id, &unreadable, field) {
        Err(ProblemDataError::Io { path, message }) => {
            assert_eq!(path, "assets/a.png");
            assert_eq!(message, "permission denied");
        }
        other => panic!("unexpected result: {other:?}"),
    }
}

#[test]
fn image_signatures_are_recognised() {
    assert_eq!(detect_image_format(PNG), Some(ImageFormat::Png));
    assert_eq!(detect_image_format(&[0xff, 0xd8, 0xff, 0x00]), Some(ImageFormat::Jpeg));
    assert_eq!(detect_image_format(b"RIFF1234WEBPVP8 "), Some(ImageFormat::Webp));
    assert_eq!(detect_image_format(b"RIFF1234WEB"), None);
    assert_eq!(detect_image_format(&[0x89, b'P', b'N']), None);
}

#[test]
fn uuids_are_parsed_by_the_uuid_crate() {
    let id = new_id();
    assert_eq!(parse_uuid(&text(id), "room.room_id".to_owned()).ok(), Some(id));
    assert_eq!(
        parse_uuid(&uuid::Uuid::from_u128(id).simple().to_string(), "x".to_owned()).ok(),
        Some(id)
    );
    let error = parse_uuid("not-a-uuid", "room.room_id".to_owned()).expect_err("invalid");
    assert_problem_data_error(error, "room.room_id", "must be a valid UUID");
}

fn operation(control: &str, count: i32) -> Operation {
    Operation::new(control.to_owned(), count)
}

fn problem_input(room_id: u128, number: i32, problem_id: u128) -> ProblemInput {
    ProblemInput {
        problem_id: text(problem_id),
        room_id: text(room_id),
        number,
        problem_type: ProblemType::Small,
        title: "問題".to_owned(),
        body_markdown: "本文".to_owned(),
        submission_type: SubmissionType::OperationSequence,
        assets: vec![image_asset(room_id, "a.png")],
        input_schema: InputSchema {
            query: QueryInputSchema {
                input_type: QueryInputType::OperationSequence,
                allowed_controls: vec!["down".to_owned(), "right".to_owned()],
                max_operations: 10,
            },
            answer: AnswerInputSchema {
                input_type: AnswerInputType::String,
                max_length: 20,
            },
        },
        hints: vec![Hint {
            body_markdown: "ヒント".to_owned(),
        }],
        judge_config: JudgeConfigInput::OperationSequence {
            correct_operations: vec![operation("down", 1), operation("down", 1)],
            candidates: vec![Candidate {
                candidate_id: " c1 ".to_owned(),
                operations: vec![operation("down", 2)],
            }],
        },
        depends_on_problem_id: None,
        is_required: true,
    }
}

#[test]
fn problem_input_is_validated_and_normalized() {
    let room_id = new_id();
    let problem_id = new_id();
    let problem = validate_problem(problem_input(room_id, 1, problem_id), room_id, 0, &vec![png_file(8)])
        .expect("problem should be valid");
    assert_eq!(problem.problem_id, problem_id);
    assert_eq!(problem.room_id, room_id);
    let JudgeConfig::OperationSequence {
        correct_operations,
        candidates,
    } = problem.judge_config
    else {
        panic!("operation judge config expected");
    };
    assert_eq!(correct_operations, vec![operation("down", 2)]);
    assert_eq!(candidates[0].candidate_id, "c1");
}

#[test]
fn problem_checks_run_in_order() {
    let room_id = new_id();

    let mut input = problem_input(room_id, 0, new_id());
    input.title = " ".to_owned();
    let error = validate_problem(input, room_id, 2, &vec![png_file(8)]).expect_err("number");
    assert_problem_data_error(error, "problems[2].number", "problem number must be greater than zero");

    let mut input = problem_input(room_id, 1, new_id());
    input.room_id = text(new_id());
    let error = validate_problem(input, room_id, 0, &vec![png_file(8)]).expect_err("room");
    assert_problem_data_error(error, "problems[0].room_id", "problem room ID must match its parent room");

    let mut input = problem_input(room_id, 1, new_id());
    input.input_schema.query.allowed_controls = vec!["down".to_owned(), " ".to_owned()];
    let error = validate_problem(input, room_id, 0, &vec![png_file(8)]).expect_err("control");
    assert_problem_data_error(
        error,
        "problems[0].input_schema.query.allowed_controls[1]",
        "must not be empty",
    );

    let mut input = problem_input(room_id, 1, new_id());
    input.assets[0].asset_type = "video".to_owned();
    let error = validate_problem(input, room_id, 0, &vec![png_file(8)]).expect_err("asset");
    assert_problem_data_error(error, "problems[0].assets[0].type", "asset type must be image");

    let mut input = problem_input(room_id, 1, new_id());
    input.depends_on_problem_id = Some("x".to_owned());
    let error = validate_problem(input, room_id, 0, &vec![png_file(8)]).expect_err("dependency");
    assert_problem_data_error(error, "problems[0].depends_on_problem_id", "must be a valid UUID");

    let mut input = problem_input(room_id, 1, new_id());
    input.submission_type = SubmissionType::String;
    let error = validate_problem(input, room_id, 0, &vec![png_file(8)]).expect_err("config");
    assert_problem_data_error(
        error,
        "problems[0].judge_config",
        "judge config type must match submission type",
    );
}

fn room_input(room_id: u128) -> RoomFileInput {
    RoomFileInput {
        room: RoomInput {
            room_id: text(room_id),
            number: 1,
            name: "部屋".to_owned(),
            genre: "謎解き".to_owned(),
            description: "説明".to_owned(),
        },
        problems: vec![problem_input(room_id, 1, new_id()), problem_input(room_id, 2, new_id())],
    }
}

#[test]
fn room_file_must_match_its_directory() {
    let room_id = new_id();
    let files = vec![vec![png_file(8)], vec![png_file(8)]];

    let room = validate_room_file(room_input(room_id), Some(&text(room_id)), &files)
        .expect("room should be valid");
    assert_eq!(room.room_id, room_id);
    assert_eq!(room.problems.len(), 2);
    assert_eq!(room.problems[1].number, 2);

    let error = validate_room_file(room_input(room_id), Some(&text(new_id())), &files)
        .expect_err("directory mismatch");
    assert_problem_data_error(error, "room.room_id", "room ID must match its directory name");

    let error = validate_room_file(room_input(room_id), None, &files).expect_err("non-UTF-8");
    assert_problem_data_error(error, "room", "room directory name must be valid UTF-8");

    let mut input = room_input(room_id);
    input.room.genre = "".to_owned();
    let error = validate_room_file(input, Some(&text(room_id)), &files).expect_err("genre");
    assert_problem_data_error(error, "room.genre", "must not be empty");

    let missing = vec![vec![png_file(8)], vec![AssetFile::Missing]];
    let error = validate_room_file(room_input(room_id), Some(&text(room_id)), &missing)
        .expect_err("missing asset");
    assert_problem_data_error(error, "problems[1].assets[0].url", "asset file must exist");
}
