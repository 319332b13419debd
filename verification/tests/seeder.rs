use server::problem::model::{ProblemCatalog, Room};
use server::problem::seeder::seed_summary;
use server::problem::model::{
    AnswerInputSchema, AnswerInputType, InputSchema, JudgeConfig, Problem, ProblemType,
    QueryInputSchema, QueryInputType, StringNormalization, SubmissionType, UnicodeNormalization,
};
use server::problem::seeder::{problem_type_name, seed_order, submission_type_name};

fn problem(number: i32) -> Problem {
    Problem {
        problem_id: number as u128,
        room_id: 1,
        number,
        problem_type: ProblemType::Small,
        title: "t".to_owned(),
        body_markdown: "b".to_owned(),
        submission_type: SubmissionType::String,
        assets: vec![],
        input_schema: InputSchema {
            query: QueryInputSchema {
                input_type: QueryInputType::OperationSequence,
                allowed_controls: vec!["down".to_owned()],
                max_operations: 1,
            },
            answer: AnswerInputSchema {
                input_type: AnswerInputType::String,
                max_length: 1,
            },
        },
        hints: vec![],
        judge_config: JudgeConfig::String {
            accepted_answers: vec!["a".to_owned()],
            normalization: StringNormalization {
                unicode: UnicodeNormalization::Nfkc,
                trim_outer_whitespace: true,
                collapse_internal_whitespace: true,
                case_sensitive: false,
            },
        },
        depends_on_problem_id: None,
        is_required: true,
    }
}

#[test]
fn problems_are_seeded_by_number_keeping_ties_in_order() {
    let problems = vec![problem(3), problem(1), problem(2), problem(1)];
    assert_eq!(seed_order(&problems), vec![1, 3, 2, 0]);
    assert_eq!(seed_order(&vec![]), Vec::<usize>::new());
}

#[test]
fn type_names_are_stored_in_snake_case() {
    assert_eq!(problem_type_name(ProblemType::Final), "final");
    assert_eq!(problem_type_name(ProblemType::Small), "small");
    assert_eq!(submission_type_name(SubmissionType::OperationSequence), "operation_sequence");
    assert_eq!(submission_type_name(SubmissionType::String), "string");
}

#[test]
fn seed_summary_counts_rooms_and_problems() {
    let room = |id: u128, problems: Vec<Problem>| Room {
        room_id: id,
        number: id as i32,
        name: "r".to_owned(),
        genre: "g".to_owned(),
        description: "d".to_owned(),
        problems,
    };
    let catalog = ProblemCatalog {
        rooms: vec![room(1, vec![problem(1), problem(2)]), room(2, vec![]), room(3, vec![problem(1)])],
    };
    let summary = seed_summary(&catalog);
    assert_eq!(summary.room_count, 3);
    assert_eq!(summary.problem_count, 3);
    assert_eq!(seed_summary(&ProblemCatalog { rooms: vec![] }).problem_count, 0);
}
