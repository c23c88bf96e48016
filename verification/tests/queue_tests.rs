use castiron::episodes::Episode;
use castiron::queue::{
    find_episode_by_id, parse_queue, refresh_queue, serialize_queue, update_queue,
    PodQueueMessage,
};

fn episode(id: i32, guid: &str) -> Episode {
    Episode {
        id,
        guid: String::from(guid),
        title: format!("Episode {id}"),
        date: String::new(),
        played: false,
        played_seconds: 0,
        file_name: format!("{guid}.mp3"),
        url: String::new(),
        feed_id: 1,
        downloaded: true,
    }
}

#[test]
fn queue_persistence_round_trip() {
    let q = vec![7, 3, 9];
    let text = serialize_queue(&q);
    assert_eq!(text, "7,3,9");
    let back = parse_queue(&text).unwrap();
    assert_eq!(back, vec![7, 3, 9]);
}

#[test]
fn empty_queue_round_trips() {
    let q: Vec<i32> = Vec::new();
    let text = serialize_queue(&q);
    assert_eq!(text, "");
    assert_eq!(parse_queue(&text), Some(Vec::new()));
}

#[test]
fn malformed_queue_text_is_rejected() {
    assert_eq!(parse_queue("7,,9"), None);
    assert_eq!(parse_queue("7,a"), None);
    assert_eq!(parse_queue(","), None);
    assert_eq!(parse_queue("99999999999999999999"), None);
}

#[test]
fn reload_tolerates_deleted_episode_id() {
    let episodes = vec![episode(7, "a"), episode(9, "c")];
    let ids = vec![7, 3, 9];
    let live = refresh_queue(&ids, &episodes);
    let live_ids: Vec<i32> = live.iter().map(|e| e.id).collect();
    assert_eq!(live_ids, vec![7, 9]);
}

#[test]
fn refresh_queue_picks_live_state() {
    let mut eps = vec![episode(7, "a")];
    eps[0].played_seconds = 55;
    let live = refresh_queue(&vec![7], &eps);
    assert_eq!(live.len(), 1);
    assert_eq!(live[0].played_seconds, 55);
    assert_eq!(find_episode_by_id(&eps, 8).map(|e| e.id), None);
}

#[test]
fn queue_add_appends() {
    let mut q = vec![1, 2];
    update_queue(&mut q, &PodQueueMessage::AddToQueue(5));
    assert_eq!(q, vec![1, 2, 5]);
}

#[test]
fn queue_remove_drops_every_occurrence() {
    let mut q = vec![1, 5, 2, 5];
    update_queue(&mut q, &PodQueueMessage::RemoveFromQueue(5));
    assert_eq!(q, vec![1, 2]);
}

#[test]
fn queue_move_reorders() {
    let mut q = vec![10, 20, 30];
    update_queue(&mut q, &PodQueueMessage::MoveToPosition(2, 0));
    assert_eq!(q, vec![30, 10, 20]);
}

#[test]
fn queue_move_out_of_range_is_a_noop() {
    let mut q = vec![10, 20, 30];
    update_queue(&mut q, &PodQueueMessage::MoveToPosition(0, 5));
    assert_eq!(q, vec![10, 20, 30]);
    update_queue(&mut q, &PodQueueMessage::MoveToPosition(7, 0));
    assert_eq!(q, vec![10, 20, 30]);
}
