use server::game_progress::Instant;
use server::repository::{RepositoryError, RoomBestRecordRecord};
use server::room_summaries::{
    ActiveProgressRow, ClearedRunRow, RoomRow, UserRoomRows, UserRunRow, cleared_rooms,
    summarize_rooms,
};

fn room(room_id: u128, number: i32) -> RoomRow {
    RoomRow {
        room_id,
        number,
        name: format!("room {number}"),
        genre: "謎".to_owned(),
        description: "説明".to_owned(),
        problem_count: 5,
        required_count: 4,
    }
}

fn run(room_id: u128, status: &str) -> UserRunRow {
    UserRunRow {
        run_id: room_id * 100,
        room_id,
        status: status.to_owned(),
    }
}

fn cleared(user_id: u128, room_id: u128, seconds: i64, query_count: i64) -> ClearedRunRow {
    ClearedRunRow {
        user_id,
        room_id,
        started_at: Instant { seconds: 0, subsec_nanos: 0 },
        cleared_at: Some(Instant { seconds, subsec_nanos: 0 }),
        query_count,
    }
}

const ME: u128 = 7;

#[test]
fn no_rooms_means_an_empty_list() {
    assert_eq!(summarize_rooms(vec![], None), Ok(vec![]));
}

#[test]
fn visitors_see_every_room_not_started() {
    let summaries = summarize_rooms(vec![room(1, 1), room(2, 2)], None).expect("valid rooms");
    assert_eq!(summaries.len(), 2);
    for summary in &summaries {
        assert_eq!(summary.progress_status, "not_started");
        assert_eq!(summary.cleared_count, 0);
        assert_eq!(summary.required_count, 4);
        assert_eq!(summary.best_record, None);
    }

    let mut bad = room(3, 3);
    bad.problem_count = -1;
    assert_eq!(
        summarize_rooms(vec![room(1, 1), bad], None),
        Err(RepositoryError::InvalidProgressCount)
    );
}

#[test]
fn progress_and_best_records_are_reported() {
    let user = UserRoomRows {
        user_id: ME,
        runs: vec![run(1, "cleared"), run(2, "active"), run(1, "cleared")],
        active_progress: vec![ActiveProgressRow { room_id: 2, cleared_count: 3 }],
        cleared_runs: vec![
            cleared(ME, 1, 90, 10),
            cleared(8, 1, 60, 5),
            cleared(ME, 1, 80, 12),
            cleared(9, 1, 80, 12),
            cleared(10, 1, 120, 1),
            cleared(8, 1, 70, 1),
        ],
    };
    let summaries = summarize_rooms(vec![room(1, 1), room(2, 2), room(3, 3)], Some(user))
        .expect("rows should be consistent");

    assert_eq!(summaries[0].progress_status, "cleared");
    assert_eq!(summaries[0].cleared_count, 4);
    assert_eq!(
        summaries[0].best_record,
        Some(RoomBestRecordRecord {
            elapsed_ms: 80_000,
            rank: 2,
            query_count: 12,
        })
    );

    assert_eq!(summaries[1].progress_status, "active");
    assert_eq!(summaries[1].cleared_count, 3);
    assert_eq!(summaries[1].best_record, None);

    assert_eq!(summaries[2].progress_status, "not_started");
    assert_eq!(summaries[2].cleared_count, 0);
}

#[test]
fn conflicting_runs_are_rejected() {
    let user = UserRoomRows {
        user_id: ME,
        runs: vec![run(1, "active"), run(1, "cleared")],
        active_progress: vec![],
        cleared_runs: vec![],
    };
    assert_eq!(
        summarize_rooms(vec![room(1, 1)], Some(user)),
        Err(RepositoryError::InvalidRunStatus {
            status: "active and cleared run conflict".to_owned()
        })
    );
}

#[test]
fn cleared_runs_must_be_rankable() {
    let mut without_clear_time = cleared(ME, 1, 10, 1);
    without_clear_time.cleared_at = None;
    let user = UserRoomRows {
        user_id: ME,
        runs: vec![run(1, "cleared")],
        active_progress: vec![],
        cleared_runs: vec![cleared(ME, 1, 10, -1), without_clear_time],
    };
    assert_eq!(
        summarize_rooms(vec![room(1, 1)], Some(user)),
        Err(RepositoryError::InvalidQueryCount)
    );
}

#[test]
fn cleared_rooms_are_listed_once() {
    let runs = vec![run(3, "cleared"), run(1, "active"), run(3, "cleared"), run(2, "cleared")];
    assert_eq!(cleared_rooms(&runs), vec![3, 2]);
}

#[test]
fn tied_records_share_a_rank() {
    let user = UserRoomRows {
        user_id: ME,
        runs: vec![run(1, "cleared")],
        active_progress: vec![],
        cleared_runs: vec![cleared(8, 1, 50, 5), cleared(9, 1, 50, 5), cleared(ME, 1, 50, 6)],
    };
    let summaries = summarize_rooms(vec![room(1, 1)], Some(user)).expect("valid rows");
    assert_eq!(summaries[0].best_record.map(|b| b.rank), Some(3));

    let user = UserRoomRows {
        user_id: ME,
        runs: vec![run(1, "cleared")],
        active_progress: vec![],
        cleared_runs: vec![cleared(8, 1, 50, 5), cleared(ME, 1, 50, 5), cleared(9, 1, 40, 9)],
    };
    let summaries = summarize_rooms(vec![room(1, 1)], Some(user)).expect("valid rows");
    assert_eq!(summaries[0].best_record.map(|b| b.rank), Some(2));
}
