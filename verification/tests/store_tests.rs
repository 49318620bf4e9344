use vidgen_core::store::interpret_history_load;
use vidgen_core::store::Generation;
use vidgen_core::store::GenerationSettings;
use vidgen_core::store::RecordStore;
use vidgen_core::store::MAX_STORED;

fn settings() -> GenerationSettings {
    GenerationSettings {
        resolution: "1920x1080".to_string(),
        fps: 30,
        quality: 80,
        audio_path: "song.mp3".to_string(),
        style_name: "default".to_string(),
    }
}

fn record(id: &str, filename: &str) -> Generation {
    Generation {
        id: id.to_string(),
        filename: filename.to_string(),
        audio_path: "song.mp3".to_string(),
        video_path: "out/video.mp4".to_string(),
        output_path: "out/video.mp4".to_string(),
        settings: settings(),
        created_at: "2024-01-01".to_string(),
        duration_ms: 0,
        file_size: 1024,
        thumbnail: None,
    }
}

#[test]
fn append_on_empty_store_then_list_has_one_record() {
    let mut store = RecordStore::new(MAX_STORED, Vec::new());
    store.append(record("", "first.mp4"));
    let listed = store.list();
    assert_eq!(listed.len(), 1);
    assert!(!listed[0].id.is_empty());
    assert_eq!(listed[0].id.len(), 36);
    assert_eq!(listed[0].filename, "first.mp4");
}

#[test]
fn append_keeps_a_supplied_id() {
    let mut store = RecordStore::new(MAX_STORED, Vec::new());
    let stored = store.append(record("my-id", "a.mp4"));
    assert_eq!(stored.id, "my-id");
    assert_eq!(store.list()[0].id, "my-id");
}

#[test]
fn appending_101_records_leaves_100_with_oldest_evicted() {
    let mut store = RecordStore::new(MAX_STORED, Vec::new());
    for i in 0..101 {
        store.append(record(&format!("id-{}", i), &format!("video-{}.mp4", i)));
    }
    let listed = store.list();
    assert_eq!(listed.len(), 100);
    // Newest first: the last append heads the list.
    assert_eq!(listed[0].id, "id-100");
    // The oldest record (the first appended) was evicted.
    assert_eq!(listed[99].id, "id-1");
    assert!(!listed.iter().any(|r| r.id == "id-0"));
}

#[test]
fn remove_of_absent_id_leaves_collection_unchanged() {
    let mut store = RecordStore::new(MAX_STORED, Vec::new());
    store.append(record("a", "a.mp4"));
    store.append(record("b", "b.mp4"));
    let before: Vec<Generation> = store.list().clone();
    store.remove(&"no-such-id".to_string());
    assert_eq!(*store.list(), before);
}

#[test]
fn remove_deletes_every_match() {
    let mut store = RecordStore::new(MAX_STORED, Vec::new());
    store.append(record("a", "a.mp4"));
    store.append(record("b", "b.mp4"));
    store.append(record("a", "a2.mp4"));
    store.remove(&"a".to_string());
    let listed = store.list();
    assert_eq!(listed.len(), 1);
    assert_eq!(listed[0].id, "b");
}

#[test]
fn clear_then_list_is_empty() {
    let mut store = RecordStore::new(MAX_STORED, Vec::new());
    store.append(record("a", "a.mp4"));
    store.append(record("b", "b.mp4"));
    store.clear();
    assert!(store.list().is_empty());
}

#[test]
fn appended_record_round_trips_in_all_fields_except_id() {
    let mut store = RecordStore::new(MAX_STORED, Vec::new());
    let original = record("", "round.mp4");
    store.append(original.clone());
    let listed = &store.list()[0];
    assert_eq!(listed.filename, original.filename);
    assert_eq!(listed.audio_path, original.audio_path);
    assert_eq!(listed.video_path, original.video_path);
    assert_eq!(listed.output_path, original.output_path);
    assert_eq!(listed.settings, original.settings);
    assert_eq!(listed.created_at, original.created_at);
    assert_eq!(listed.duration_ms, original.duration_ms);
    assert_eq!(listed.file_size, original.file_size);
    assert_eq!(listed.thumbnail, original.thumbnail);
    assert_ne!(listed.id, original.id);
}

#[test]
fn missing_history_file_is_an_empty_history() {
    let loaded = interpret_history_load(false, Err("ignored".to_string()));
    assert_eq!(loaded.unwrap().len(), 0);
}

#[test]
fn unreadable_history_is_an_error() {
    let loaded = interpret_history_load(true, Err("permission denied".to_string()));
    assert_eq!(
        loaded.unwrap_err(),
        "Failed to read generations file: permission denied"
    );
}

#[test]
fn corrupt_history_is_an_error_not_data_loss() {
    let loaded = interpret_history_load(true, Ok(Err("expected value at line 1".to_string())));
    assert_eq!(
        loaded.unwrap_err(),
        "Failed to parse generations: expected value at line 1"
    );
}

#[test]
fn parsed_history_is_returned_as_is() {
    let records = vec![record("x", "x.mp4")];
    let loaded = interpret_history_load(true, Ok(Ok(records.clone()))).unwrap();
    assert_eq!(loaded, records);
}
