use achvgames_com::steam::api_steampowered_com::i_steam_apps::get_app_list;
use achvgames_com::steam::api_steampowered_com::SteamClientError;
use achvgames_com::steam::worker::{
    count_outcome, game_ids, is_critical, visit_order, SteamWorkerError, VisitOrder,
};

#[test]
fn resume_after_memento_in_the_middle() {
    let ids = vec![1, 2, 3, 4, 5];
    assert_eq!(visit_order(&ids, 3), VisitOrder::Finite(vec![4, 5, 1, 2, 3]));
    assert_eq!(visit_order(&ids, 1), VisitOrder::Finite(vec![2, 3, 4, 5, 1]));
}

#[test]
fn resume_with_repeated_memento() {
    let ids = vec![1, 3, 3, 5];
    assert_eq!(visit_order(&ids, 3), VisitOrder::Finite(vec![5, 1, 3]));
}

#[test]
fn memento_not_among_ids_cycles_forever() {
    let ids = vec![1, 2, 4, 5];
    assert_eq!(visit_order(&ids, 3), VisitOrder::Endless(vec![4, 5, 1, 2]));
    assert_eq!(visit_order(&ids, 0), VisitOrder::Endless(vec![1, 2, 4, 5]));
}

#[test]
fn memento_at_or_above_the_largest_id_stalls() {
    let ids = vec![1, 2, 3];
    assert_eq!(visit_order(&ids, 3), VisitOrder::Stalled);
    assert_eq!(visit_order(&ids, 9), VisitOrder::Stalled);
}

#[test]
fn no_ids_visits_only_the_memento() {
    assert_eq!(visit_order(&Vec::new(), 0), VisitOrder::Finite(vec![0]));
    assert_eq!(visit_order(&Vec::new(), 42), VisitOrder::Finite(vec![42]));
}

#[test]
fn unsorted_ids_follow_the_cycle() {
    let ids = vec![5, 1, 9, 3, 7];
    // cycle from the first id above 4 (index 0): 5 1 9 3 7 5 ... up to 3
    assert_eq!(visit_order(&ids, 3), VisitOrder::Finite(vec![5, 1, 9, 3]));
}

#[test]
fn game_ids_are_sorted() {
    let res = get_app_list::Response {
        app_list: get_app_list::ResponseAppList {
            apps: [30, 10, 20, 10, -5]
                .iter()
                .map(|&app_id| get_app_list::ResponseApp { app_id })
                .collect(),
        },
    };
    assert_eq!(game_ids(&res), vec![-5, 10, 10, 20, 30]);
}

#[test]
fn critical_failures_end_the_pass() {
    assert!(!is_critical(&Ok(())));
    assert!(!is_critical(&Err(SteamWorkerError::Client(SteamClientError::BadRequest))));
    assert!(!is_critical(&Err(SteamWorkerError::Client(SteamClientError::Forbidden))));
    assert!(is_critical(&Err(SteamWorkerError::Client(SteamClientError::TooManyRequests))));
    assert!(is_critical(&Err(SteamWorkerError::Client(SteamClientError::Unknown(
        500,
        "down".to_string()
    )))));
}

#[test]
fn counting_outcomes() {
    assert_eq!(count_outcome(0, &Ok(())), Some(1));
    assert_eq!(count_outcome(4, &Err(SteamWorkerError::Client(SteamClientError::Forbidden))), Some(4));
    assert_eq!(
        count_outcome(4, &Err(SteamWorkerError::Client(SteamClientError::TooManyRequests))),
        None
    );
}

#[test]
fn worker_error_from_client_error() {
    let e: SteamWorkerError = SteamClientError::Forbidden.into();
    assert!(matches!(e, SteamWorkerError::Client(SteamClientError::Forbidden)));
}
