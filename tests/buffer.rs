use game_client::buffer::{
    BufferTask, BufferTaskEnum, ChatBufferTask, ChatTask, Color, GameView, MapChunk, MapLoader,
};

/// Chunks on "disk": tiles are [mx, my, mg, 1], attributes [mg as u8].
struct Disk {
    missing: Vec<(i32, i32, u64)>,
    reads: Vec<(i32, i32, u64)>,
}

impl MapLoader for Disk {
    fn load_file(&mut self, mx: i32, my: i32, mg: u64) -> Option<MapChunk> {
        self.reads.push((mx, my, mg));
        if self.missing.contains(&(mx, my, mg)) {
            return None;
        }
        Some(MapChunk { tiles: vec![mx as u32, my as u32, mg as u32, 1], attributes: vec![mg as u8] })
    }
}

fn disk() -> Disk {
    Disk { missing: Vec::new(), reads: Vec::new() }
}

fn view(finalized: bool) -> GameView {
    let mut map = Vec::new();
    for _ in 0..9 {
        map.push(MapChunk { tiles: vec![0], attributes: vec![0] });
    }
    GameView { map, chat: Vec::new(), finalized }
}

fn white() -> Color {
    Color { r: 255, g: 255, b: 255, a: 255 }
}

#[test]
fn load_then_apply_fills_slot_three() {
    let mut buffer = BufferTask::new();
    let mut content = view(true);
    let mut loader = disk();
    buffer.add_task(BufferTaskEnum::LoadMap(0, 0, 1));
    buffer.add_task(BufferTaskEnum::ApplyMap(0, 0, 1, 3));
    buffer.process_buffer(&mut content, &mut loader);
    assert_eq!(content.map[3].tiles, vec![0]);
    buffer.process_buffer(&mut content, &mut loader);
    assert_eq!(content.map[3].tiles, vec![0, 0, 1, 1]);
    assert_eq!(content.map[3].attributes, vec![0]);
    for (i, slot) in content.map.iter().enumerate() {
        if i != 3 {
            assert_eq!(slot.tiles, vec![0]);
        }
    }
    assert!(buffer.task.is_empty());
}

#[test]
fn tasks_drain_in_order_one_per_call() {
    let mut buffer = BufferTask::new();
    let mut content = view(true);
    let mut loader = disk();
    buffer.add_task(BufferTaskEnum::LoadMap(1, 0, 0));
    buffer.add_task(BufferTaskEnum::LoadMap(2, 0, 0));
    buffer.add_task(BufferTaskEnum::LoadMap(3, 0, 0));
    buffer.process_buffer(&mut content, &mut loader);
    assert_eq!(loader.reads, vec![(1, 0, 0)]);
    assert_eq!(buffer.task.len(), 2);
    buffer.process_buffer(&mut content, &mut loader);
    buffer.process_buffer(&mut content, &mut loader);
    assert_eq!(loader.reads, vec![(1, 0, 0), (2, 0, 0), (3, 0, 0)]);
    buffer.process_buffer(&mut content, &mut loader);
    assert_eq!(loader.reads.len(), 3);
    assert!(buffer.task.is_empty());
}

#[test]
fn apply_without_load_changes_nothing() {
    let mut buffer = BufferTask::new();
    let mut content = view(true);
    let mut loader = disk();
    buffer.add_task(BufferTaskEnum::LoadMap(1, 0, 0));
    buffer.add_task(BufferTaskEnum::ApplyMap(0, 1, 0, 2));
    buffer.add_task(BufferTaskEnum::ApplyMapAttribute(0, 1, 0, 2));
    for _ in 0..3 {
        buffer.process_buffer(&mut content, &mut loader);
    }
    assert_eq!(content.map[2].tiles, vec![0]);
    assert_eq!(content.map[2].attributes, vec![0]);
}

#[test]
fn failed_load_leaves_apply_a_no_op() {
    let mut buffer = BufferTask::new();
    let mut content = view(true);
    let mut loader = Disk { missing: vec![(5, 5, 5)], reads: Vec::new() };
    buffer.add_task(BufferTaskEnum::LoadMap(5, 5, 5));
    buffer.add_task(BufferTaskEnum::ApplyMap(5, 5, 5, 0));
    buffer.process_buffer(&mut content, &mut loader);
    buffer.process_buffer(&mut content, &mut loader);
    assert_eq!(content.map[0].tiles, vec![0]);
}

#[test]
fn unload_then_apply_changes_nothing() {
    let mut buffer = BufferTask::new();
    let mut content = view(true);
    let mut loader = disk();
    buffer.add_task(BufferTaskEnum::LoadMap(-1, 2, 3));
    buffer.add_task(BufferTaskEnum::UnloadMap(-1, 2, 3));
    buffer.add_task(BufferTaskEnum::UnloadMap(-1, 2, 3));
    buffer.add_task(BufferTaskEnum::ApplyMap(-1, 2, 3, 4));
    for _ in 0..4 {
        buffer.process_buffer(&mut content, &mut loader);
    }
    assert_eq!(content.map[4].tiles, vec![0]);
}

#[test]
fn attribute_apply_copies_attributes_only() {
    let mut buffer = BufferTask::new();
    let mut content = view(true);
    let mut loader = disk();
    buffer.add_task(BufferTaskEnum::LoadMap(-1, 2, 3));
    buffer.add_task(BufferTaskEnum::ApplyMapAttribute(-1, 2, 3, 8));
    buffer.process_buffer(&mut content, &mut loader);
    buffer.process_buffer(&mut content, &mut loader);
    assert_eq!(content.map[8].attributes, vec![3]);
    assert_eq!(content.map[8].tiles, vec![0]);
}

#[test]
fn slot_outside_window_is_ignored() {
    let mut buffer = BufferTask::new();
    let mut content = view(true);
    let mut loader = disk();
    buffer.add_task(BufferTaskEnum::LoadMap(0, 0, 0));
    buffer.add_task(BufferTaskEnum::ApplyMap(0, 0, 0, 9));
    buffer.process_buffer(&mut content, &mut loader);
    buffer.process_buffer(&mut content, &mut loader);
    assert!(content.map.iter().all(|c| c.tiles == vec![0]));
}

#[test]
fn chat_waits_for_finalized_then_drains_in_order() {
    let mut chat = ChatBufferTask::new();
    let mut content = view(false);
    chat.add_task(ChatTask::new(("a".to_string(), white()), None));
    chat.add_task(ChatTask::new(("b".to_string(), white()), Some(("ann".to_string(), white()))));
    for _ in 0..5 {
        chat.process_buffer(&mut content);
    }
    assert!(content.chat.is_empty());
    assert_eq!(chat.task.len(), 2);
    content.finalized = true;
    chat.process_buffer(&mut content);
    assert_eq!(content.chat.len(), 1);
    assert_eq!(content.chat[0].msg.0, "a");
    chat.process_buffer(&mut content);
    assert_eq!(content.chat[1].msg.0, "b");
    assert_eq!(content.chat[1].header_msg.as_ref().unwrap().0, "ann");
    chat.process_buffer(&mut content);
    assert_eq!(content.chat.len(), 2);
}

#[test]
fn frame_drains_one_chat_and_one_map_task() {
    let mut buffer = BufferTask::new();
    let mut content = view(true);
    let mut loader = disk();
    buffer.chatbuffer.add_task(ChatTask::new(("x".to_string(), white()), None));
    buffer.chatbuffer.add_task(ChatTask::new(("y".to_string(), white()), None));
    buffer.add_task(BufferTaskEnum::LoadMap(0, 0, 0));
    buffer.add_task(BufferTaskEnum::LoadMap(0, 0, 1));
    buffer.process_buffer(&mut content, &mut loader);
    assert_eq!(content.chat.len(), 1);
    assert_eq!(loader.reads.len(), 1);
}

#[test]
fn store_loaded_caches_a_chunk_and_ignores_a_failed_read() {
    let mut buffer = BufferTask::new();
    buffer.store_loaded(0, 0, 1, Some(MapChunk { tiles: vec![5, 6], attributes: vec![1] }));
    buffer.store_loaded(0, 0, 2, None);
    assert_eq!(buffer.storage.map_data.len(), 1);
    assert_eq!(buffer.storage.map_data.get("0_0_1").unwrap().tiles, vec![5, 6]);
    assert!(buffer.storage.map_data.get("0_0_2").is_none());
}

#[test]
fn cache_keeps_key_order_across_reload_and_unload() {
    let mut buffer = BufferTask::new();
    let mut content = view(true);
    let mut loader = disk();
    for t in [
        BufferTaskEnum::LoadMap(1, 0, 0),
        BufferTaskEnum::LoadMap(2, 0, 0),
        BufferTaskEnum::LoadMap(3, 0, 0),
        BufferTaskEnum::LoadMap(1, 0, 0),
        BufferTaskEnum::UnloadMap(2, 0, 0),
    ] {
        buffer.add_task(t);
    }
    for _ in 0..5 {
        buffer.process_buffer(&mut content, &mut loader);
    }
    let keys: Vec<&String> = buffer.storage.map_data.keys().collect();
    assert_eq!(keys, vec!["1_0_0", "3_0_0"]);
}

#[test]
fn map_keys_are_decimal_with_underscores() {
    assert_eq!(game_client::buffer::map_key_string(-12, 0, 18446744073709551615), "-12_0_18446744073709551615");
    assert_eq!(game_client::buffer::map_key_string(i32::MIN, 7, 10), "-2147483648_7_10");
}
