use dagger_explorer::transfer::{
    destination_path_for, invalidation_for, kio_failure_message, plan_source, timeout_message,
    transfer_action_word, transfer_complete, transfer_stats, unique_path_list, ConflictChoice,
    PendingConflict, SourceStep, TransferEvent, TransferManager, TransferMode,
};

fn strings(items: &[&str]) -> Vec<String> {
    items.iter().map(|s| s.to_string()).collect()
}

#[test]
fn unique_path_list_keeps_first_occurrence() {
    let all = strings(&["/a", "/b", "/a", "/c", "/b"]);
    assert_eq!(unique_path_list(&all), strings(&["/a", "/b", "/c"]));
    assert!(unique_path_list(&Vec::new()).is_empty());
}

#[test]
fn start_refuses_empty_and_busy() {
    let mut manager = TransferManager::new();
    assert!(!manager.start(&Vec::new(), TransferMode::Copy));
    assert!(!manager.is_active());
    assert!(manager.start(&strings(&["/tmp/a"]), TransferMode::Move));
    assert!(manager.is_active());
    assert_eq!(manager.progress.operation, "Moving");
    assert_eq!(manager.progress.label, "Starting transfer…");
    assert!(manager.progress.counting);
    assert!(!manager.start(&strings(&["/tmp/b"]), TransferMode::Copy));
    assert_eq!(manager.progress.operation, "Moving");
}

#[test]
fn events_drive_progress_to_done() {
    let mut manager = TransferManager::new();
    assert!(manager.start(&strings(&["/src/a"]), TransferMode::Copy));
    assert_eq!(manager.progress.operation, "Copying");
    let changed = manager.poll(vec![
        TransferEvent::Totals { total_files: 3, total_bytes: 300 },
        TransferEvent::Totals { total_files: 0, total_bytes: 0 },
        TransferEvent::Progress { done_files: 1, done_bytes: 100, current: "a".to_string() },
    ]);
    assert!(changed);
    assert_eq!(manager.progress.total_files, 3);
    assert_eq!(manager.progress.total_bytes, 300);
    assert_eq!(manager.progress.done_files, 1);
    assert_eq!(manager.progress.done_bytes, 100);
    assert_eq!(manager.progress.label, "a");
    assert!(!manager.progress.counting);
    manager.apply_event(TransferEvent::Done { invalidate: strings(&["/src", "/dst", "/src"]) });
    assert!(!manager.is_active());
    assert!(!manager.listening);
    assert_eq!(manager.progress.label, "Done");
    assert_eq!(manager.take_invalidation(), strings(&["/src", "/dst"]));
    assert!(manager.take_invalidation().is_empty());
    assert!(!manager.poll(vec![TransferEvent::Error("late".to_string())]));
    assert_eq!(manager.progress.error, None);
}

#[test]
fn error_event_stops_transfer() {
    let mut manager = TransferManager::new();
    assert!(manager.start(&strings(&["/src/a"]), TransferMode::Copy));
    manager.apply_event(TransferEvent::Error("disk full".to_string()));
    assert!(!manager.is_active());
    assert_eq!(manager.progress.error, Some("disk full".to_string()));
    assert!(!manager.poll(Vec::new()));
}

#[test]
fn conflict_answers() {
    let mut manager = TransferManager::new();
    let none = manager.resolve_conflict(ConflictChoice::Skip);
    assert!(none.answered.is_none());
    assert!(none.remember.is_none());

    assert!(manager.start(&strings(&["/src/a"]), TransferMode::Copy));
    manager.pending_conflict = Some(PendingConflict {
        source: "/src/a".to_string(),
        destination: "/dst/a".to_string(),
    });
    manager.apply_to_all = true;
    manager.conflict_state = true;
    assert!(manager.has_conflict());
    let r = manager.resolve_conflict(ConflictChoice::Replace);
    assert_eq!(r.answered.map(|c| c.destination), Some("/dst/a".to_string()));
    assert_eq!(r.remember, Some(ConflictChoice::Replace));
    assert!(!manager.has_conflict());
    assert!(manager.is_active());

    manager.pending_conflict = Some(PendingConflict {
        source: "/src/b".to_string(),
        destination: "/dst/b".to_string(),
    });
    let r = manager.resolve_conflict(ConflictChoice::Cancel);
    assert!(r.answered.is_some());
    assert_eq!(r.remember, None);
    assert!(!manager.is_active());
    assert_eq!(manager.progress.error, Some("Transfer cancelled".to_string()));
}

#[test]
fn plan_source_cases() {
    match plan_source("/src/a.txt", "/dst", TransferMode::Copy, true) {
        Ok(SourceStep::Transfer { label, destination }) => {
            assert_eq!(label, "a.txt");
            assert_eq!(destination, "/dst/a.txt");
        }
        _ => panic!("expected a transfer step"),
    }
    assert!(matches!(plan_source("/src/a.txt", "/dst", TransferMode::Copy, false), Ok(SourceStep::Skip)));
    assert!(matches!(plan_source("/dst/a.txt", "/dst", TransferMode::Move, true), Ok(SourceStep::Skip)));
    assert!(matches!(
        plan_source("/dst/a.txt", "/dst", TransferMode::Copy, true),
        Ok(SourceStep::Transfer { .. })
    ));
    match plan_source("/", "/dst", TransferMode::Copy, true) {
        Err(e) => assert_eq!(e, "Invalid source path: /"),
        _ => panic!("expected an error"),
    }
}

#[test]
fn destination_and_invalidation() {
    assert_eq!(destination_path_for("/src/a.txt", "/dst"), Ok("/dst/a.txt".to_string()));
    assert_eq!(destination_path_for("/", "/dst"), Err("Invalid source path: /".to_string()));
    assert_eq!(invalidation_for("/src/a", "/dst/a"), strings(&["/src/a", "/dst/a", "/src"]));
}

#[test]
fn completion_and_stats() {
    assert!(transfer_complete(TransferMode::Copy, true, true, 2, 10, 2, 10));
    assert!(!transfer_complete(TransferMode::Copy, true, false, 2, 10, 2, 10));
    assert!(!transfer_complete(TransferMode::Move, true, true, 2, 10, 2, 10));
    assert!(transfer_complete(TransferMode::Move, false, true, 3, 11, 2, 10));
    assert!(!transfer_complete(TransferMode::Copy, true, true, 1, 10, 2, 10));
    assert_eq!(transfer_stats(0, 5), (1, 5));
    assert_eq!(transfer_stats(7, 9), (7, 9));
}

#[test]
fn failure_messages() {
    assert_eq!(transfer_action_word(TransferMode::Copy), "copy");
    assert_eq!(transfer_action_word(TransferMode::Move), "move");
    assert_eq!(
        kio_failure_message("kioclient6", TransferMode::Move, "/src/a", "  \n"),
        "kioclient6 move failed for /src/a"
    );
    assert_eq!(
        kio_failure_message("kioclient6", TransferMode::Copy, "/src/a", "  access denied\n"),
        "access denied"
    );
    assert_eq!(
        timeout_message(TransferMode::Copy, "/src/a"),
        "Timed out waiting for copy operation to finish for /src/a"
    );
}
