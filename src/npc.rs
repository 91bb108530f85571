//! The NPC database: one record per file, numbered from 0.

use vstd::prelude::*;
use crate::codec::{
    bool_at, dec_str, i32_at, i64_at, read_bool_at, read_i32_at, read_i64_at, read_u16_at,
    read_u32_at, read_u64_at, read_u8_at, u16_at, u32_at, u64_at, u8_at, PacketBuffer,
};
use crate::error::SocketError;

verus! {

/// The area an NPC covers, in tiles.
#[derive(Clone, Copy, Debug, PartialEq, Eq, Structural)]
pub struct TileBox {
    pub x: u8,
    pub y: u8,
    pub width: u8,
    pub height: u8,
}

/// How an NPC reacts to players.
#[derive(Clone, Copy, Debug, PartialEq, Eq, Structural)]
pub enum AIBehavior {
    Friendly,
    Agressive,
    Reactive,
    HelpReactive,
    Healer,
    AgressiveHealer,
    ReactiveHealer,
}

/// A time of day.
#[derive(Clone, Copy, Debug, PartialEq, Eq, Structural)]
pub struct GameTime {
    pub hour: u32,
    pub min: u32,
    pub sec: u32,
}

/// The behaviour with ordinal `id`, counting from 1.
pub open spec fn behaviour_of(id: u16) -> Option<AIBehavior> {
    if id == 1 {
        Some(AIBehavior::Friendly)
    } else if id == 2 {
        Some(AIBehavior::Agressive)
    } else if id == 3 {
        Some(AIBehavior::Reactive)
    } else if id == 4 {
        Some(AIBehavior::HelpReactive)
    } else if id == 5 {
        Some(AIBehavior::Healer)
    } else if id == 6 {
        Some(AIBehavior::AgressiveHealer)
    } else if id == 7 {
        Some(AIBehavior::ReactiveHealer)
    } else {
        None
    }
}

impl AIBehavior {
    pub fn from_id(id: u16) -> (r: Option<AIBehavior>)
        ensures
            r == behaviour_of(id),
    {
        match id {
            1 => Some(AIBehavior::Friendly),
            2 => Some(AIBehavior::Agressive),
            3 => Some(AIBehavior::Reactive),
            4 => Some(AIBehavior::HelpReactive),
            5 => Some(AIBehavior::Healer),
            6 => Some(AIBehavior::AgressiveHealer),
            7 => Some(AIBehavior::ReactiveHealer),
            _ => None,
        }
    }
}

/// One NPC's definition.
pub struct NpcData {
    pub name: String,
    pub level: i32,
    pub sprite: i32,
    pub respawn_wait: i64,
    pub movement_wait: i64,
    pub attack_wait: i64,
    pub intervaled_wait: i64,
    pub spawn_wait: i64,
    pub maxhp: u32,
    pub maxsp: u32,
    pub maxmp: u32,
    pub sight: i32,
    pub follow_sight: i32,
    pub walkdistance: u32,
    pub pdamage: u32,
    pub pdefense: u32,
    pub canpassthru: bool,
    pub size: TileBox,
    pub behaviour: AIBehavior,
    pub maxdamage: u32,
    pub mindamage: u32,
    pub target_auto_switch: bool,
    pub target_attacked_switch: bool,
    pub target_auto_switch_chance: i64,
    pub target_range_dropout: bool,
    pub can_target: bool,
    pub can_move: bool,
    pub can_attack_player: bool,
    pub has_allys: bool,
    pub has_enemies: bool,
    pub can_attack: bool,
    pub has_selfonly: bool,
    pub has_friendonly: bool,
    pub has_groundonly: bool,
    pub runsaway: bool,
    pub isanimated: bool,
    pub run_damage: u32,
    pub spawntime: (GameTime, GameTime),
    pub range: i32,
    pub enemies: Vec<u64>,
    pub drops: [(u32, u32, u32); 10],
    pub drops_max: u16,
    pub exp: i64,
}

pub ghost struct NpcView {
    pub name: Seq<char>,
    pub level: i32,
    pub sprite: i32,
    pub respawn_wait: i64,
    pub movement_wait: i64,
    pub attack_wait: i64,
    pub intervaled_wait: i64,
    pub spawn_wait: i64,
    pub maxhp: u32,
    pub maxsp: u32,
    pub maxmp: u32,
    pub sight: i32,
    pub follow_sight: i32,
    pub walkdistance: u32,
    pub pdamage: u32,
    pub pdefense: u32,
    pub canpassthru: bool,
    pub size: TileBox,
    pub behaviour: AIBehavior,
    pub maxdamage: u32,
    pub mindamage: u32,
    pub target_auto_switch: bool,
    pub target_attacked_switch: bool,
    pub target_auto_switch_chance: i64,
    pub target_range_dropout: bool,
    pub can_target: bool,
    pub can_move: bool,
    pub can_attack_player: bool,
    pub has_allys: bool,
    pub has_enemies: bool,
    pub can_attack: bool,
    pub has_selfonly: bool,
    pub has_friendonly: bool,
    pub has_groundonly: bool,
    pub runsaway: bool,
    pub isanimated: bool,
    pub run_damage: u32,
    pub spawntime: (GameTime, GameTime),
    pub range: i32,
    pub enemies: Seq<u64>,
    pub drops: Seq<(u32, u32, u32)>,
    pub drops_max: u16,
    pub exp: i64,
}

impl View for NpcData {
    type V = NpcView;

    open spec fn view(&self) -> NpcView {
        NpcView {
            name: self.name@,
            level: self.level,
            sprite: self.sprite,
            respawn_wait: self.respawn_wait,
            movement_wait: self.movement_wait,
            attack_wait: self.attack_wait,
            intervaled_wait: self.intervaled_wait,
            spawn_wait: self.spawn_wait,
            maxhp: self.maxhp,
            maxsp: self.maxsp,
            maxmp: self.maxmp,
            sight: self.sight,
            follow_sight: self.follow_sight,
            walkdistance: self.walkdistance,
            pdamage: self.pdamage,
            pdefense: self.pdefense,
            canpassthru: self.canpassthru,
            size: self.size,
            behaviour: self.behaviour,
            maxdamage: self.maxdamage,
            mindamage: self.mindamage,
            target_auto_switch: self.target_auto_switch,
            target_attacked_switch: self.target_attacked_switch,
            target_auto_switch_chance: self.target_auto_switch_chance,
            target_range_dropout: self.target_range_dropout,
            can_target: self.can_target,
            can_move: self.can_move,
            can_attack_player: self.can_attack_player,
            has_allys: self.has_allys,
            has_enemies: self.has_enemies,
            can_attack: self.can_attack,
            has_selfonly: self.has_selfonly,
            has_friendonly: self.has_friendonly,
            has_groundonly: self.has_groundonly,
            runsaway: self.runsaway,
            isanimated: self.isanimated,
            run_damage: self.run_damage,
            spawntime: self.spawntime,
            range: self.range,
            enemies: self.enemies@,
            drops: self.drops@,
            drops_max: self.drops_max,
            exp: self.exp,
        }
    }
}

/// Bytes taken by the fixed-width fields from `level` to `range`.
pub const FIXED_FIELDS_LEN: usize = 149;

/// Bytes taken by the fields after the enemy list: the drop table (a `u64`
/// count that must be 10, then ten `u32` triples), `drops_max` and `exp`.
pub const TAIL_LEN: usize = 138;

pub open spec fn game_time_at(b: Seq<u8>, off: int) -> GameTime {
    GameTime { hour: u32_at(b, off), min: u32_at(b, off + 4), sec: u32_at(b, off + 8) }
}

pub open spec fn drop_at(b: Seq<u8>, off: int) -> (u32, u32, u32) {
    (u32_at(b, off), u32_at(b, off + 4), u32_at(b, off + 8))
}

/// The record with this name, fixed-width block, behaviour, enemy list and
/// tail block.
#[verifier::opaque]
pub open spec fn npc_from(
    name: Seq<char>,
    blk: Seq<u8>,
    beh: AIBehavior,
    enemies: Seq<u64>,
    tail: Seq<u8>,
) -> NpcView {
    NpcView {
                name,
                level: i32_at(blk, 0),
                sprite: i32_at(blk, 4),
                respawn_wait: i64_at(blk, 8),
                movement_wait: i64_at(blk, 16),
                attack_wait: i64_at(blk, 24),
                intervaled_wait: i64_at(blk, 32),
                spawn_wait: i64_at(blk, 40),
                maxhp: u32_at(blk, 48),
                maxsp: u32_at(blk, 52),
                maxmp: u32_at(blk, 56),
                sight: i32_at(blk, 60),
                follow_sight: i32_at(blk, 64),
                walkdistance: u32_at(blk, 68),
                pdamage: u32_at(blk, 72),
                pdefense: u32_at(blk, 76),
                canpassthru: bool_at(blk, 80),
                size: TileBox {
                    x: u8_at(blk, 81),
                    y: u8_at(blk, 82),
                    width: u8_at(blk, 83),
                    height: u8_at(blk, 84),
                },
                behaviour: beh,
                maxdamage: u32_at(blk, 87),
                mindamage: u32_at(blk, 91),
                target_auto_switch: bool_at(blk, 95),
                target_attacked_switch: bool_at(blk, 96),
                target_auto_switch_chance: i64_at(blk, 97),
                target_range_dropout: bool_at(blk, 105),
                can_target: bool_at(blk, 106),
                can_move: bool_at(blk, 107),
                can_attack_player: bool_at(blk, 108),
                has_allys: bool_at(blk, 109),
                has_enemies: bool_at(blk, 110),
                can_attack: bool_at(blk, 111),
                has_selfonly: bool_at(blk, 112),
                has_friendonly: bool_at(blk, 113),
                has_groundonly: bool_at(blk, 114),
                runsaway: bool_at(blk, 115),
                isanimated: bool_at(blk, 116),
                run_damage: u32_at(blk, 117),
                spawntime: (game_time_at(blk, 121), game_time_at(blk, 133)),
                range: i32_at(blk, 145),
                enemies,
                drops: Seq::new(10, |i: int| drop_at(tail, 8 + 12 * i)),
                drops_max: u16_at(tail, 128),
                exp: i64_at(tail, 130),
    }
}

/// A list of `u64`: its length as a `u64`, then the entries; with the
/// number of bytes it takes.
pub open spec fn dec_u64_list(s: Seq<u8>) -> Option<(Seq<u64>, nat)> {
    if s.len() >= 8 && s.len() - 8 >= 8 * u64_at(s, 0) {
        let n = u64_at(s, 0) as nat;
        Some((Seq::new(n, |i: int| u64_at(s, 8 + 8 * i)), 8 + 8 * n))
    } else {
        None
    }
}

/// The NPC record at the start of `s`: the name, the fixed-width fields in
/// declaration order, the enemy list, then the drop table, `drops_max` and
/// `exp`. Booleans read any non-zero byte as `true`; the behaviour is a
/// `u16` ordinal counting from 1.
pub open spec fn dec_npc(s: Seq<u8>) -> Option<NpcView> {
    match dec_str(s) {
        Some((name, k)) => {
            let a = s.skip(k as int);
            if a.len() < 149 {
                None
            } else {
                let blk = a.take(149);
                match (behaviour_of(u16_at(blk, 85)), dec_u64_list(a.skip(149))) {
                    (Some(beh), Some((enemies, m))) => {
                        let rest = a.skip(149 + m as int);
                        let tail = rest.take(138);
                        if rest.len() >= 138 && u64_at(tail, 0) == 10 {
                            Some(npc_from(name, blk, beh, enemies, tail))
                        } else {
                            None
                        }
                    },
                    _ => None,
                }
            }
        },
        None => None,
    }
}

/// A record file: an eight-byte header, then the record.
pub open spec fn npc_file(bytes: Seq<u8>) -> Option<NpcView> {
    if bytes.len() >= 8 {
        dec_npc(bytes.skip(8))
    } else {
        None
    }
}

fn read_game_time_at(b: &Vec<u8>, off: usize) -> (r: GameTime)
    requires
        off + 12 <= b@.len(),
    ensures
        r == game_time_at(b@, off as int),
{
    let _len = b.len();
    GameTime {
        hour: read_u32_at(b, off),
        min: read_u32_at(b, off + 4),
        sec: read_u32_at(b, off + 8),
    }
}

fn build_npc(
    name: String,
    blk: &Vec<u8>,
    behaviour: AIBehavior,
    enemies: Vec<u64>,
    tail: &Vec<u8>,
) -> (r: NpcData)
    requires
        blk@.len() == FIXED_FIELDS_LEN,
        tail@.len() == TAIL_LEN,
    ensures
        r@ == npc_from(name@, blk@, behaviour, enemies@, tail@),
{
    let mut drops: [(u32, u32, u32); 10] = [(0, 0, 0); 10];
    let mut d: usize = 0;
    while d < 10
        invariant
            d <= 10,
            tail@.len() == 138,
            forall|j: int| 0 <= j < d ==> drops@[j] == drop_at(tail@, 8 + 12 * j),
        decreases 10 - d,
    {
        let o = 8 + 12 * d;
        drops[d] = (read_u32_at(tail, o), read_u32_at(tail, o + 4), read_u32_at(tail, o + 8));
        d = d + 1;
    }
    assert(drops@ =~= Seq::new(10, |j: int| drop_at(tail@, 8 + 12 * j)));
    proof {
        reveal(npc_from);
    }
    NpcData {
        name,
        level: read_i32_at(blk, 0),
        sprite: read_i32_at(blk, 4),
        respawn_wait: read_i64_at(blk, 8),
        movement_wait: read_i64_at(blk, 16),
        attack_wait: read_i64_at(blk, 24),
        intervaled_wait: read_i64_at(blk, 32),
        spawn_wait: read_i64_at(blk, 40),
        maxhp: read_u32_at(blk, 48),
        maxsp: read_u32_at(blk, 52),
        maxmp: read_u32_at(blk, 56),
        sight: read_i32_at(blk, 60),
        follow_sight: read_i32_at(blk, 64),
        walkdistance: read_u32_at(blk, 68),
        pdamage: read_u32_at(blk, 72),
        pdefense: read_u32_at(blk, 76),
        canpassthru: read_bool_at(blk, 80),
        size: TileBox {
            x: read_u8_at(blk, 81),
            y: read_u8_at(blk, 82),
            width: read_u8_at(blk, 83),
            height: read_u8_at(blk, 84),
        },
        behaviour: behaviour,
        maxdamage: read_u32_at(blk, 87),
        mindamage: read_u32_at(blk, 91),
        target_auto_switch: read_bool_at(blk, 95),
        target_attacked_switch: read_bool_at(blk, 96),
        target_auto_switch_chance: read_i64_at(blk, 97),
        target_range_dropout: read_bool_at(blk, 105),
        can_target: read_bool_at(blk, 106),
        can_move: read_bool_at(blk, 107),
        can_attack_player: read_bool_at(blk, 108),
        has_allys: read_bool_at(blk, 109),
        has_enemies: read_bool_at(blk, 110),
        can_attack: read_bool_at(blk, 111),
        has_selfonly: read_bool_at(blk, 112),
        has_friendonly: read_bool_at(blk, 113),
        has_groundonly: read_bool_at(blk, 114),
        runsaway: read_bool_at(blk, 115),
        isanimated: read_bool_at(blk, 116),
        run_damage: read_u32_at(blk, 117),
        spawntime: (read_game_time_at(blk, 121), read_game_time_at(blk, 133)),
        range: read_i32_at(blk, 145),
        enemies,
        drops,
        drops_max: read_u16_at(tail, 128),
        exp: read_i64_at(tail, 130),
    }
}

/// Reads an NPC record at the cursor.
pub fn read_npc(buf: &mut PacketBuffer) -> (r: Result<NpcData, SocketError>)
    requires
        old(buf).wf(),
    ensures
        dec_npc(old(buf).unread()) matches Some(n) ==> r is Ok && r->Ok_0@ == n,
        dec_npc(old(buf).unread()) is None ==> r == Err::<NpcData, SocketError>(
            SocketError::DecodeError,
        ),
{
    let ghost s = buf.unread();
    proof {
        buf.lemma_wf();
    }
    let name = buf.read_string()?;
    let ghost k = buf.pos() - old(buf).pos();
    let ghost a = s.skip(k as int);
    assert(buf.unread() =~= a);
    let blk = buf.read_bytes(FIXED_FIELDS_LEN)?;
    assert(buf.unread() =~= a.skip(149));
    let ghost e = a.skip(149);
    let behaviour = match AIBehavior::from_id(read_u16_at(&blk, 85)) {
        Some(b) => b,
        None => return Err(SocketError::DecodeError),
    };
    let count = buf.read_u64()?;
    assert(buf.unread() =~= e.skip(8));
    let remaining = buf.length() - buf.cursor();
    if count > (remaining / 8) as u64 {
        proof {
            let c = count as int;
            let rem = remaining as int;
            assert(rem < 8 * c) by (nonlinear_arith)
                requires
                    c > rem / 8,
                    rem >= 0,
            ;
        }
        return Err(SocketError::DecodeError);
    }
    proof {
        let c = count as int;
        let rem = remaining as int;
        assert(8 * c <= rem) by (nonlinear_arith)
            requires
                c <= rem / 8,
                rem >= 0,
        ;
    }
    let raw = buf.read_bytes((count * 8) as usize)?;
    let rlen = raw.len();
    let n = count as usize;
    assert(e.len() >= 8 + 8 * count);
    let mut enemies: Vec<u64> = Vec::new();
    let mut i: usize = 0;
    while i < n
        invariant
            n == count,
            i <= n,
            rlen == raw@.len(),
            e.len() >= 8 + 8 * count,
            8 * count == raw@.len(),
            raw@ == e.subrange(8, 8 + 8 * count),
            enemies@ == Seq::new(i as nat, |j: int| u64_at(e, 8 + 8 * j)),
        decreases n - i,
    {
        let v = read_u64_at(&raw, 8 * i);
        assert(raw@.subrange(8 * i, 8 * i + 8) =~= e.subrange(8 + 8 * i, 8 + 8 * i + 8));
        enemies.push(v);
        assert(enemies@ =~= Seq::new((i + 1) as nat, |j: int| u64_at(e, 8 + 8 * j)));
        i = i + 1;
    }
    assert(dec_u64_list(e) == Some((enemies@, (8 + 8 * count) as nat)));
    let ghost rest = a.skip(149 + 8 + 8 * count);
    assert(buf.unread() =~= rest);
    let tail = buf.read_bytes(TAIL_LEN)?;
    if read_u64_at(&tail, 0) != 10 {
        return Err(SocketError::DecodeError);
    }
    Ok(build_npc(name, &blk, behaviour, enemies, &tail))
}

/// Decodes a record file: skips its eight-byte header, then reads the
/// record.
pub fn parse_npc(bytes: &[u8]) -> (r: Result<NpcData, SocketError>)
    ensures
        r is Ok ==> npc_file(bytes@) == Some(r->Ok_0@),
        npc_file(bytes@) is None ==> r is Err,
        r is Err ==> r->Err_0 == SocketError::DecodeError || r->Err_0 == SocketError::BufferError,
{
    let mut buf = PacketBuffer::from_bytes(bytes)?;
    buf.move_cursor(8)?;
    assert(buf.unread() =~= bytes@.skip(8));
    read_npc(&mut buf)
}

/// Where NPC record files come from.
pub trait NpcFiles {
    /// The contents of record file `id`; `None` when there is no such file.
    fn load_file(&mut self, id: usize) -> Option<Vec<u8>>;
}

/// Decodes record files in order. The result holds one record per file,
/// in the same order; a file that does not decode fails the whole list.
pub fn parse_npcs(files: &Vec<Vec<u8>>) -> (r: Result<Vec<NpcData>, SocketError>)
    ensures
        r is Ok ==> r->Ok_0@.len() == files@.len() && forall|i: int|
            0 <= i < files@.len() ==> npc_file(files@[i]@) == Some(#[trigger] r->Ok_0@[i]@),
        (exists|i: int| 0 <= i < files@.len() && (#[trigger] npc_file(files@[i]@)) is None)
            ==> r is Err,
        r is Err ==> r->Err_0 == SocketError::DecodeError || r->Err_0 == SocketError::BufferError,
{
    let mut out: Vec<NpcData> = Vec::new();
    let mut i: usize = 0;
    while i < files.len()
        invariant
            i <= files@.len(),
            out@.len() == i,
            forall|j: int| 0 <= j < i ==> npc_file(files@[j]@) == Some(#[trigger] out@[j]@),
        decreases files@.len() - i,
    {
        let npc = parse_npc(files[i].as_slice())?;
        out.push(npc);
        i = i + 1;
    }
    assert forall|j: int| 0 <= j < files@.len() implies (#[trigger] npc_file(files@[j]@)) is Some by {
        assert(npc_file(files@[j]@) == Some(out@[j]@));
    }
    Ok(out)
}

pub open spec fn views(v: Seq<NpcData>) -> Seq<NpcView> {
    v.map_values(|n: NpcData| n@)
}

/// The records decoded from some list of files, one per file in order.
pub open spec fn decoded_from(fs: Seq<Seq<u8>>, records: Seq<NpcView>) -> bool {
    &&& fs.len() == records.len()
    &&& forall|i: int| 0 <= i < fs.len() ==> npc_file(#[trigger] fs[i]) == Some(records[i])
}

/// Loads record files 0, 1, 2, ... up to the first number with no file,
/// then decodes them with `parse_npcs`.
pub fn get_npc<F: NpcFiles>(files: &mut F) -> (r: Result<Vec<NpcData>, SocketError>)
    ensures
        r is Ok ==> exists|fs: Seq<Seq<u8>>|
            #[trigger] decoded_from(fs, views(r->Ok_0@)),
{
    let mut contents: Vec<Vec<u8>> = Vec::new();
    let mut count: usize = 0;
    while count < usize::MAX
        decreases usize::MAX - count,
    {
        match files.load_file(count) {
            Some(bytes) => {
                contents.push(bytes);
                count = count + 1;
            },
            None => break,
        }
    }
    let npcs = parse_npcs(&contents)?;
    let ghost fs = contents@.map_values(|b: Vec<u8>| b@);
    assert(decoded_from(fs, views(npcs@)));
    Ok(npcs)
}

} // verus!
