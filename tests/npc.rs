use game_client::codec::PacketBuffer;
use game_client::error::SocketError;
use game_client::npc::{get_npc, parse_npc, AIBehavior, GameTime, NpcFiles, TileBox};

fn record(name: &str, behaviour: u16, enemies: &[u64], drop_count: u64) -> Vec<u8> {
    let mut buf = PacketBuffer::new_packet().unwrap();
    buf.write_str(name).unwrap();
    buf.write_i32(-3).unwrap();
    buf.write_i32(12).unwrap();
    buf.write_i64(1000).unwrap();
    buf.write_i64(200).unwrap();
    buf.write_i64(300).unwrap();
    buf.write_i64(400).unwrap();
    buf.write_i64(-500).unwrap();
    buf.write_u32(90).unwrap();
    buf.write_u32(10).unwrap();
    buf.write_u32(11).unwrap();
    buf.write_i32(6).unwrap();
    buf.write_i32(8).unwrap();
    buf.write_u32(3).unwrap();
    buf.write_u32(4).unwrap();
    buf.write_u32(5).unwrap();
    buf.write_bool(true).unwrap();
    buf.write_u8(1).unwrap();
    buf.write_u8(2).unwrap();
    buf.write_u8(1).unwrap();
    buf.write_u8(1).unwrap();
    buf.write_u16(behaviour).unwrap();
    buf.write_u32(20).unwrap();
    buf.write_u32(2).unwrap();
    buf.write_bool(false).unwrap();
    buf.write_bool(true).unwrap();
    buf.write_i64(25).unwrap();
    buf.write_bool(false).unwrap();
    buf.write_bool(true).unwrap();
    buf.write_bool(true).unwrap();
    buf.write_bool(false).unwrap();
    buf.write_bool(true).unwrap();
    buf.write_bool(true).unwrap();
    buf.write_bool(true).unwrap();
    buf.write_bool(false).unwrap();
    buf.write_bool(false).unwrap();
    buf.write_bool(true).unwrap();
    buf.write_bool(false).unwrap();
    buf.write_bool(true).unwrap();
    buf.write_u32(7).unwrap();
    buf.write_u32(6).unwrap();
    buf.write_u32(0).unwrap();
    buf.write_u32(0).unwrap();
    buf.write_u32(18).unwrap();
    buf.write_u32(30).unwrap();
    buf.write_u32(0).unwrap();
    buf.write_i32(2).unwrap();
    buf.write_u64(enemies.len() as u64).unwrap();
    for e in enemies {
        buf.write_u64(*e).unwrap();
    }
    buf.write_u64(drop_count).unwrap();
    for i in 0..10u32 {
        buf.write_u32(i).unwrap();
        buf.write_u32(i * 10).unwrap();
        buf.write_u32(i * 100).unwrap();
    }
    buf.write_u16(3).unwrap();
    buf.write_i64(-77).unwrap();
    buf.finish().unwrap();
    buf.to_vec()
}

#[test]
fn npc_record_decodes_every_field() {
    let bytes = record("Slime", 3, &[4, 9], 10);
    let npc = parse_npc(&bytes).unwrap();
    assert_eq!(npc.name, "Slime");
    assert_eq!(npc.level, -3);
    assert_eq!(npc.sprite, 12);
    assert_eq!(npc.respawn_wait, 1000);
    assert_eq!(npc.movement_wait, 200);
    assert_eq!(npc.attack_wait, 300);
    assert_eq!(npc.intervaled_wait, 400);
    assert_eq!(npc.spawn_wait, -500);
    assert_eq!(npc.maxhp, 90);
    assert_eq!(npc.maxsp, 10);
    assert_eq!(npc.maxmp, 11);
    assert_eq!(npc.sight, 6);
    assert_eq!(npc.follow_sight, 8);
    assert_eq!(npc.walkdistance, 3);
    assert_eq!(npc.pdamage, 4);
    assert_eq!(npc.pdefense, 5);
    assert_eq!(npc.canpassthru, true);
    assert_eq!(npc.maxdamage, 20);
    assert_eq!(npc.mindamage, 2);
    assert_eq!(npc.target_auto_switch, false);
    assert_eq!(npc.target_attacked_switch, true);
    assert_eq!(npc.target_auto_switch_chance, 25);
    assert_eq!(npc.target_range_dropout, false);
    assert_eq!(npc.can_target, true);
    assert_eq!(npc.can_move, true);
    assert_eq!(npc.can_attack_player, false);
    assert_eq!(npc.has_allys, true);
    assert_eq!(npc.has_enemies, true);
    assert_eq!(npc.can_attack, true);
    assert_eq!(npc.has_selfonly, false);
    assert_eq!(npc.has_friendonly, false);
    assert_eq!(npc.has_groundonly, true);
    assert_eq!(npc.runsaway, false);
    assert_eq!(npc.isanimated, true);
    assert_eq!(npc.run_damage, 7);
    assert_eq!(npc.range, 2);
    assert_eq!(npc.size, TileBox { x: 1, y: 2, width: 1, height: 1 });
    assert_eq!(npc.behaviour, AIBehavior::Reactive);
    assert_eq!(npc.spawntime.0, GameTime { hour: 6, min: 0, sec: 0 });
    assert_eq!(npc.spawntime.1, GameTime { hour: 18, min: 30, sec: 0 });
    assert_eq!(npc.enemies, vec![4, 9]);
    assert_eq!(npc.drops[0], (0, 0, 0));
    assert_eq!(npc.drops[9], (9, 90, 900));
    assert_eq!(npc.drops_max, 3);
    assert_eq!(npc.exp, -77);
}

#[test]
fn npc_record_rejects_bad_fields() {
    assert_eq!(parse_npc(&record("x", 8, &[], 10)).err(), Some(SocketError::DecodeError));
    assert_eq!(parse_npc(&record("x", 1, &[], 9)).err(), Some(SocketError::DecodeError));
    let mut short = record("x", 1, &[1], 10);
    short.pop();
    assert_eq!(parse_npc(&short).err(), Some(SocketError::DecodeError));
    assert_eq!(parse_npc(&[0, 0, 0]).err(), Some(SocketError::DecodeError));
}

struct Files(Vec<Vec<u8>>);

impl NpcFiles for Files {
    fn load_file(&mut self, id: usize) -> Option<Vec<u8>> {
        self.0.get(id).cloned()
    }
}

#[test]
fn get_npc_loads_until_a_file_is_missing() {
    let mut files = Files(vec![record("a", 1, &[], 10), record("b", 2, &[7], 10)]);
    let npcs = get_npc(&mut files).unwrap();
    assert_eq!(npcs.len(), 2);
    assert_eq!(npcs[0].name, "a");
    assert_eq!(npcs[1].behaviour, AIBehavior::Agressive);
    let mut none = Files(Vec::new());
    assert_eq!(get_npc(&mut none).unwrap().len(), 0);
    let mut bad = Files(vec![record("a", 1, &[], 10), vec![1, 2, 3]]);
    assert!(get_npc(&mut bad).is_err());
}

#[test]
fn parse_npcs_keeps_file_order_and_fails_on_a_bad_file() {
    let files = vec![record("a", 1, &[], 10), record("b", 5, &[], 10)];
    let npcs = game_client::npc::parse_npcs(&files).unwrap();
    assert_eq!(npcs[0].name, "a");
    assert_eq!(npcs[1].behaviour, AIBehavior::Healer);
    let bad = vec![record("a", 1, &[], 10), record("b", 0, &[], 10)];
    assert_eq!(game_client::npc::parse_npcs(&bad).err(), Some(SocketError::DecodeError));
}
