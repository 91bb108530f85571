//! Deferred work from packet handlers, drained one entry per frame: map
//! chunk loads and applications, and chat messages.

use vstd::prelude::*;
use indexmap::IndexMap;
use std::collections::VecDeque;
use vstd::string::StringExecFns;

verus! {

#[verifier::external_type_specification]
#[verifier::external_body]
#[verifier::reject_recursive_types(K)]
#[verifier::reject_recursive_types(V)]
#[verifier::reject_recursive_types(S)]
pub struct ExIndexMap<K, V, S>(IndexMap<K, V, S>);

/// The tile and attribute data of one map chunk.
pub struct MapChunk {
    pub tiles: Vec<u32>,
    pub attributes: Vec<u8>,
}

pub ghost struct ChunkView {
    pub tiles: Seq<u32>,
    pub attributes: Seq<u8>,
}

impl View for MapChunk {
    type V = ChunkView;

    open spec fn view(&self) -> ChunkView {
        ChunkView { tiles: self.tiles@, attributes: self.attributes@ }
    }
}

/// The entries of the chunk cache, by key.
pub uninterp spec fn chunks_of(m: IndexMap<String, MapChunk>) -> Map<Seq<char>, MapChunk>;

/// The keys of the chunk cache, in the cache's order.
pub uninterp spec fn chunk_keys(m: IndexMap<String, MapChunk>) -> Seq<Seq<char>>;

/// Relies on `IndexMap::new`: a map with no entry.
#[verifier::external_body]
fn chunk_map_new() -> (r: IndexMap<String, MapChunk>)
    ensures
        chunks_of(r).dom() == Set::<Seq<char>>::empty(),
        chunk_keys(r).len() == 0,
{
    IndexMap::new()
}

/// Relies on `IndexMap::insert`: the key now maps to `chunk`, replacing any
/// earlier value; other entries are kept. A key already present keeps its
/// place in the order; a new one goes last.
#[verifier::external_body]
fn chunk_map_insert(m: &mut IndexMap<String, MapChunk>, key: String, chunk: MapChunk)
    ensures
        chunks_of(*final(m)) == chunks_of(*old(m)).insert(key@, chunk),
        chunk_keys(*old(m)).contains(key@) ==> chunk_keys(*final(m)) == chunk_keys(*old(m)),
        !chunk_keys(*old(m)).contains(key@) ==> chunk_keys(*final(m)) == chunk_keys(
            *old(m),
        ).push(key@),
{
    m.insert(key, chunk);
}

/// Relies on `IndexMap::get`: the value under `key`, if any.
#[verifier::external_body]
fn chunk_map_get<'a>(m: &'a IndexMap<String, MapChunk>, key: &String) -> (r: Option<&'a MapChunk>)
    ensures
        chunks_of(*m).contains_key(key@) ==> r == Some(&chunks_of(*m)[key@]),
        !chunks_of(*m).contains_key(key@) ==> r is None,
{
    m.get(key)
}

/// `keys` with every occurrence of `key` taken out, the rest in order.
pub open spec fn without(keys: Seq<Seq<char>>, key: Seq<char>) -> Seq<Seq<char>> {
    keys.filter(|k: Seq<char>| k != key)
}

/// Relies on `IndexMap::shift_remove`: the entry under `key`, if any, is
/// removed; other entries are kept, in their order.
#[verifier::external_body]
fn chunk_map_remove(m: &mut IndexMap<String, MapChunk>, key: &String)
    ensures
        chunks_of(*final(m)) == chunks_of(*old(m)).remove(key@),
        chunk_keys(*final(m)) == without(chunk_keys(*old(m)), key@),
{
    m.shift_remove(key);
}

/// The decimal digit `d`.
pub open spec fn digit(d: nat) -> char {
    seq!['0', '1', '2', '3', '4', '5', '6', '7', '8', '9'][d as int]
}

/// `n` in decimal, without leading zeros.
pub open spec fn decimal(n: nat) -> Seq<char>
    decreases n,
{
    if n < 10 {
        seq![digit(n)]
    } else {
        decimal(n / 10).push(digit(n % 10))
    }
}

/// `v` in decimal, with a leading `-` when negative.
pub open spec fn signed_decimal(v: int) -> Seq<char> {
    if v < 0 {
        seq!['-'] + decimal((-v) as nat)
    } else {
        decimal(v as nat)
    }
}

/// The cache key of map (mx, my, mg): `"mx_my_mg"`.
pub open spec fn map_key(mx: i32, my: i32, mg: u64) -> Seq<char> {
    signed_decimal(mx as int) + seq!['_'] + signed_decimal(my as int) + seq!['_'] + decimal(
        mg as nat,
    )
}

/// The decimal digit `d`, as text.
fn digit_str(d: u64) -> (r: &'static str)
    requires
        d < 10,
    ensures
        r@ == seq![digit(d as nat)],
{
    proof {
        reveal_strlit("0");
        reveal_strlit("1");
        reveal_strlit("2");
        reveal_strlit("3");
        reveal_strlit("4");
        reveal_strlit("5");
        reveal_strlit("6");
        reveal_strlit("7");
        reveal_strlit("8");
        reveal_strlit("9");
    }
    match d {
        0 => "0",
        1 => "1",
        2 => "2",
        3 => "3",
        4 => "4",
        5 => "5",
        6 => "6",
        7 => "7",
        8 => "8",
        _ => "9",
    }
}

/// Appends `n` in decimal.
fn push_decimal(s: &mut String, n: u64)
    ensures
        final(s)@ == old(s)@ + decimal(n as nat),
    decreases n,
{
    if n >= 10 {
        push_decimal(s, n / 10);
    }
    s.append(digit_str(n % 10));
    assert(s@ =~= old(s)@ + decimal(n as nat));
}

/// Appends `v` in decimal, with a leading `-` when negative.
fn push_signed_decimal(s: &mut String, v: i32)
    ensures
        final(s)@ == old(s)@ + signed_decimal(v as int),
{
    if v < 0 {
        proof {
            reveal_strlit("-");
        }
        s.append("-");
        let ghost mid = s@;
        push_decimal(s, (-(v as i64)) as u64);
        assert(s@ =~= old(s)@ + signed_decimal(v as int));
    } else {
        push_decimal(s, v as u64);
    }
}

/// The cache key of map (mx, my, mg), as in `map_key`.
pub fn map_key_string(mx: i32, my: i32, mg: u64) -> (r: String)
    ensures
        r@ == map_key(mx, my, mg),
{
    proof {
        reveal_strlit("_");
    }
    let mut s = String::new();
    push_signed_decimal(&mut s, mx);
    s.append("_");
    push_signed_decimal(&mut s, my);
    s.append("_");
    push_decimal(&mut s, mg);
    assert(s@ =~= map_key(mx, my, mg));
    s
}

/// Deferred map work. `mx, my, mg` name a map; `slot` is a position in
/// the active map window.
#[derive(Clone, Copy, Debug, PartialEq, Eq, Structural)]
pub enum BufferTaskEnum {
    LoadMap(i32, i32, u64),
    ApplyMap(i32, i32, u64, usize),
    ApplyMapAttribute(i32, i32, u64, usize),
    UnloadMap(i32, i32, u64),
}

/// Where map chunks come from.
pub trait MapLoader {
    /// The chunk stored for map (mx, my, mg); `None` when it cannot be read.
    fn load_file(&mut self, mx: i32, my: i32, mg: u64) -> Option<MapChunk>;
}

/// The loaded chunks, by key: written by `LoadMap`, read by `ApplyMap` and
/// `ApplyMapAttribute`, emptied by `UnloadMap`.
pub struct StoredData {
    pub map_data: IndexMap<String, MapChunk>,
}

impl StoredData {
    pub open spec fn view(&self) -> Map<Seq<char>, ChunkView> {
        chunks_of(self.map_data).map_values(|c: MapChunk| c@)
    }

    /// The keys, in the order the cache keeps them.
    pub open spec fn order(&self) -> Seq<Seq<char>> {
        chunk_keys(self.map_data)
    }
}

pub open spec fn opt_view(o: Option<MapChunk>) -> Option<ChunkView> {
    match o {
        Some(c) => Some(c@),
        None => None,
    }
}

/// The cache after storing what a load returned: the chunk under `key`,
/// or nothing at all when the read failed.
pub open spec fn stored_after_load(
    stored: Map<Seq<char>, ChunkView>,
    key: Seq<char>,
    loaded: Option<ChunkView>,
) -> Map<Seq<char>, ChunkView> {
    match loaded {
        Some(c) => stored.insert(key, c),
        None => stored,
    }
}

/// The effect of one map task on the order of the cache's keys. `stored`
/// tells whether a `LoadMap` stored a chunk.
pub open spec fn order_effect(t: BufferTaskEnum, order: Seq<Seq<char>>, stored: bool) -> Seq<
    Seq<char>,
> {
    match t {
        BufferTaskEnum::LoadMap(mx, my, mg) => {
            if stored && !order.contains(map_key(mx, my, mg)) {
                order.push(map_key(mx, my, mg))
            } else {
                order
            }
        },
        BufferTaskEnum::UnloadMap(mx, my, mg) => without(order, map_key(mx, my, mg)),
        _ => order,
    }
}

/// An RGBA colour.
#[derive(Clone, Copy, Debug, PartialEq, Eq, Structural)]
pub struct Color {
    pub r: u8,
    pub g: u8,
    pub b: u8,
    pub a: u8,
}

/// A chat message with its colour, and an optional coloured header such as
/// the sender's name.
pub struct ChatTask {
    pub msg: (String, Color),
    pub header_msg: Option<(String, Color)>,
}

impl ChatTask {
    pub fn new(msg: (String, Color), header_msg: Option<(String, Color)>) -> (r: ChatTask)
        ensures
            r.msg == msg,
            r.header_msg == header_msg,
    {
        ChatTask { msg, header_msg }
    }
}

/// The part of the active game content that the queues write to.
pub struct GameView {
    /// The live map window, one chunk per slot.
    pub map: Vec<MapChunk>,
    /// The chat box's messages, oldest first.
    pub chat: Vec<ChatTask>,
    /// Whether the content is ready to show chat.
    pub finalized: bool,
}

impl GameView {
    pub open spec fn window(&self) -> Seq<ChunkView> {
        self.map@.map_values(|c: MapChunk| c@)
    }
}

/// One drain of a FIFO queue: the front entry and what remains, or nothing
/// and the queue as it was when it is empty.
pub open spec fn drain_step<T>(q: Seq<T>) -> (Option<T>, Seq<T>) {
    if q.len() == 0 {
        (None, q)
    } else {
        (Some(q[0]), q.drop_first())
    }
}

/// One drain of the chat queue: none at all while the content is not
/// finalized.
pub open spec fn chat_step<T>(q: Seq<T>, finalized: bool) -> (Option<T>, Seq<T>) {
    if finalized {
        drain_step(q)
    } else {
        (None, q)
    }
}

/// The effect of one map task on the chunk cache and the window. `loaded`
/// is what storage returned for a `LoadMap` (`None`: it could not be read)
/// and is not used otherwise. Applying a key with no cached chunk, or to a
/// slot outside the window, changes nothing.
pub open spec fn task_effect(
    t: BufferTaskEnum,
    stored: Map<Seq<char>, ChunkView>,
    window: Seq<ChunkView>,
    loaded: Option<ChunkView>,
) -> (Map<Seq<char>, ChunkView>, Seq<ChunkView>) {
    match t {
        BufferTaskEnum::LoadMap(mx, my, mg) => (
            stored_after_load(stored, map_key(mx, my, mg), loaded),
            window,
        ),
        BufferTaskEnum::ApplyMap(mx, my, mg, slot) => {
            let k = map_key(mx, my, mg);
            if stored.contains_key(k) && slot < window.len() {
                (
                    stored,
                    window.update(
                        slot as int,
                        ChunkView { tiles: stored[k].tiles, attributes: window[slot as int].attributes },
                    ),
                )
            } else {
                (stored, window)
            }
        },
        BufferTaskEnum::ApplyMapAttribute(mx, my, mg, slot) => {
            let k = map_key(mx, my, mg);
            if stored.contains_key(k) && slot < window.len() {
                (
                    stored,
                    window.update(
                        slot as int,
                        ChunkView { tiles: window[slot as int].tiles, attributes: stored[k].attributes },
                    ),
                )
            } else {
                (stored, window)
            }
        },
        BufferTaskEnum::UnloadMap(mx, my, mg) => (stored.remove(map_key(mx, my, mg)), window),
    }
}

fn copy_vec<T: Copy>(v: &Vec<T>) -> (r: Vec<T>)
    ensures
        r@ == v@,
{
    let mut r: Vec<T> = Vec::new();
    let mut i: usize = 0;
    while i < v.len()
        invariant
            i <= v@.len(),
            r@ == v@.take(i as int),
        decreases v@.len() - i,
    {
        r.push(v[i]);
        assert(v@.take(i + 1) =~= v@.take(i as int).push(v@[i as int]));
        i = i + 1;
    }
    assert(v@.take(v@.len() as int) =~= v@);
    r
}

/// The chat queue.
pub struct ChatBufferTask {
    pub task: VecDeque<ChatTask>,
}

impl ChatBufferTask {
    pub fn new() -> (r: ChatBufferTask)
        ensures
            r.task@ == Seq::<ChatTask>::empty(),
    {
        ChatBufferTask { task: VecDeque::new() }
    }

    /// Moves the front message into the chat box, once the content is
    /// finalized; before that, does nothing and the queue keeps growing.
    pub fn process_buffer(&mut self, content: &mut GameView)
        ensures
            final(self).task@ == chat_step(old(self).task@, old(content).finalized).1,
            chat_step(old(self).task@, old(content).finalized).0 matches Some(m)
                ==> final(content).chat@ == old(content).chat@.push(m),
            chat_step(old(self).task@, old(content).finalized).0 is None ==> final(content).chat@
                == old(content).chat@,
            final(content).map@ == old(content).map@,
            final(content).finalized == old(content).finalized,
    {
        if self.task.len() == 0 {
            return;
        }
        if !content.finalized {
            return;
        }
        if let Some(task) = self.task.pop_front() {
            content.chat.push(task);
        }
    }

    /// Queues a message at the back.
    pub fn add_task(&mut self, task: ChatTask)
        ensures
            final(self).task@ == old(self).task@.push(task),
    {
        self.task.push_back(task);
    }
}

/// The map task queue, the chunk cache, and the chat queue.
pub struct BufferTask {
    pub task: VecDeque<BufferTaskEnum>,
    pub storage: StoredData,
    pub chatbuffer: ChatBufferTask,
}

impl BufferTask {
    /// Empty queues and an empty cache.
    pub fn new() -> (r: BufferTask)
        ensures
            r.task@ == Seq::<BufferTaskEnum>::empty(),
            r.storage.view() == Map::<Seq<char>, ChunkView>::empty(),
            r.chatbuffer.task@ == Seq::<ChatTask>::empty(),
    {
        let r = BufferTask {
            task: VecDeque::new(),
            storage: StoredData { map_data: chunk_map_new() },
            chatbuffer: ChatBufferTask::new(),
        };
        assert(r.storage.view() =~= Map::<Seq<char>, ChunkView>::empty());
        r
    }

    /// Caches what storage returned for map (mx, my, mg): a chunk goes
    /// under the map's key, replacing an earlier one and keeping its place
    /// in the order, or placed last; `None` (the read failed) stores
    /// nothing.
    pub fn store_loaded(&mut self, mx: i32, my: i32, mg: u64, loaded: Option<MapChunk>)
        ensures
            final(self).storage.view() == stored_after_load(
                old(self).storage.view(),
                map_key(mx, my, mg),
                opt_view(loaded),
            ),
            final(self).storage.order() == order_effect(
                BufferTaskEnum::LoadMap(mx, my, mg),
                old(self).storage.order(),
                loaded is Some,
            ),
            final(self).task@ == old(self).task@,
            final(self).chatbuffer.task@ == old(self).chatbuffer.task@,
    {
        let key = map_key_string(mx, my, mg);
        if let Some(chunk) = loaded {
            chunk_map_insert(&mut self.storage.map_data, key, chunk);
            assert(self.storage.view() =~= stored_after_load(
                old(self).storage.view(),
                map_key(mx, my, mg),
                opt_view(loaded),
            ));
        }
    }

    /// One frame's work: one chat drain, then at most one map task, taken
    /// from the front and applied. Storage is read only for a `LoadMap`,
    /// and what it returns is cached as `store_loaded` says.
    pub fn process_buffer<L: MapLoader>(&mut self, content: &mut GameView, loader: &mut L)
        ensures
            final(self).chatbuffer.task@ == chat_step(
                old(self).chatbuffer.task@,
                old(content).finalized,
            ).1,
            chat_step(old(self).chatbuffer.task@, old(content).finalized).0 matches Some(m)
                ==> final(content).chat@ == old(content).chat@.push(m),
            chat_step(old(self).chatbuffer.task@, old(content).finalized).0 is None
                ==> final(content).chat@ == old(content).chat@,
            final(content).finalized == old(content).finalized,
            final(self).task@ == drain_step(old(self).task@).1,
            drain_step(old(self).task@).0 is None ==> final(self).storage.view()
                == old(self).storage.view() && final(self).storage.order()
                == old(self).storage.order() && final(content).window() == old(content).window(),
            drain_step(old(self).task@).0 matches Some(t) ==> (!(t is LoadMap) ==> task_effect(
                t,
                old(self).storage.view(),
                old(content).window(),
                None,
            ) == (final(self).storage.view(), final(content).window())
                && final(self).storage.order() == order_effect(
                t,
                old(self).storage.order(),
                false,
            )),
            drain_step(old(self).task@).0 matches Some(t) ==> (t is LoadMap ==> exists|
                loaded: Option<MapChunk>,
            |
                task_effect(t, old(self).storage.view(), old(content).window(), opt_view(loaded))
                    == (final(self).storage.view(), final(content).window())
                    && final(self).storage.order() == order_effect(
                    t,
                    old(self).storage.order(),
                    loaded is Some,
                )),
            !(drain_step(old(self).task@).0 matches Some(BufferTaskEnum::LoadMap(_, _, _)))
                ==> *final(loader) == *old(loader),
    {
        self.chatbuffer.process_buffer(content);
        if self.task.len() == 0 {
            return;
        }
        let task = match self.task.pop_front() {
            Some(t) => t,
            None => return,
        };
        let ghost stored0 = self.storage.view();
        let ghost order0 = self.storage.order();
        let ghost window0 = content.window();
        assert(self.task@ =~= drain_step(old(self).task@).1);
        assert(stored0 == old(self).storage.view());
        assert(window0 =~= old(content).window());
        assert(drain_step(old(self).task@).0 == Some(task));
        match task {
            BufferTaskEnum::ApplyMap(mx, my, mg, slot) => {
                let key = map_key_string(mx, my, mg);
                if let Some(chunk) = chunk_map_get(&self.storage.map_data, &key) {
                    if slot < content.map.len() {
                        let tiles = copy_vec(&chunk.tiles);
                        let attributes = copy_vec(&content.map[slot].attributes);
                        content.map.set(slot, MapChunk { tiles, attributes });
                    }
                }
                assert(task_effect(task, stored0, window0, None) == (
                    self.storage.view(),
                    content.window(),
                ));
                assert(self.storage.order() == order_effect(task, order0, false));
            },
            BufferTaskEnum::ApplyMapAttribute(mx, my, mg, slot) => {
                let key = map_key_string(mx, my, mg);
                if let Some(chunk) = chunk_map_get(&self.storage.map_data, &key) {
                    if slot < content.map.len() {
                        let tiles = copy_vec(&content.map[slot].tiles);
                        let attributes = copy_vec(&chunk.attributes);
                        content.map.set(slot, MapChunk { tiles, attributes });
                    }
                }
                assert(task_effect(task, stored0, window0, None) == (
                    self.storage.view(),
                    content.window(),
                ));
                assert(self.storage.order() == order_effect(task, order0, false));
            },
            BufferTaskEnum::LoadMap(mx, my, mg) => {
                let loaded = loader.load_file(mx, my, mg);
                let ghost lo = loaded;
                self.store_loaded(mx, my, mg, loaded);
                assert(task_effect(task, stored0, window0, opt_view(lo)) == (
                    self.storage.view(),
                    content.window(),
                ));
            },
            BufferTaskEnum::UnloadMap(mx, my, mg) => {
                let key = map_key_string(mx, my, mg);
                chunk_map_remove(&mut self.storage.map_data, &key);
                assert(task_effect(task, stored0, window0, None) == (
                    self.storage.view(),
                    content.window(),
                ));
                assert(self.storage.order() == order_effect(task, order0, false));
            },
        }
    }

    /// Queues a map task at the back.
    pub fn add_task(&mut self, task: BufferTaskEnum)
        ensures
            final(self).task@ == old(self).task@.push(task),
            final(self).storage.view() == old(self).storage.view(),
            final(self).chatbuffer.task@ == old(self).chatbuffer.task@,
    {
        self.task.push_back(task);
    }
}

/// The queue left after `k` drains.
pub open spec fn after_drains<T>(q: Seq<T>, k: nat) -> Seq<T>
    decreases k,
{
    if k == 0 {
        q
    } else {
        after_drains(drain_step(q).1, (k - 1) as nat)
    }
}

/// The chat queue left after `k` drains with the given finalized flag.
pub open spec fn chat_drains<T>(q: Seq<T>, finalized: bool, k: nat) -> Seq<T>
    decreases k,
{
    if k == 0 {
        q
    } else {
        chat_drains(chat_step(q, finalized).1, finalized, (k - 1) as nat)
    }
}

/// Draining a queue that holds `tasks`, oldest first, takes one entry per
/// call in the order they were enqueued; once all are taken, a drain takes
/// nothing and leaves the queue empty.
pub proof fn lemma_fifo_drain<T>(tasks: Seq<T>, k: nat)
    ensures
        k <= tasks.len() ==> after_drains(tasks, k) == tasks.skip(k as int),
        k < tasks.len() ==> drain_step(after_drains(tasks, k)).0 == Some(tasks[k as int]),
        drain_step(after_drains(tasks, tasks.len())).0 is None,
        after_drains(tasks, tasks.len()).len() == 0,
{
    lemma_drains_skip(tasks, k);
    lemma_drains_skip(tasks, tasks.len());
}

proof fn lemma_drains_skip<T>(q: Seq<T>, k: nat)
    ensures
        k <= q.len() ==> after_drains(q, k) == q.skip(k as int),
    decreases k,
{
    if k > 0 && k <= q.len() {
        lemma_drains_skip(q.drop_first(), (k - 1) as nat);
        assert(q.drop_first().skip(k - 1) =~= q.skip(k as int));
    } else if k == 0 {
        assert(q.skip(0) =~= q);
    }
}

/// While the content is not finalized, chat drains take nothing and leave
/// the queue as it was, however many there are. Once it is finalized,
/// drains resume from the same front entry, in order.
pub proof fn lemma_chat_gate<T>(q: Seq<T>, m: nat, k: nat)
    ensures
        chat_drains(q, false, m) == q,
        chat_step(chat_drains(q, false, m), false).0 is None,
        k < q.len() ==> chat_step(chat_drains(chat_drains(q, false, m), true, k), true).0 == Some(
            q[k as int],
        ),
    decreases m,
{
    if m > 0 {
        lemma_chat_gate(q, (m - 1) as nat, k);
    }
    lemma_chat_finalized(q, k);
    lemma_fifo_drain(q, k);
}

proof fn lemma_chat_finalized<T>(q: Seq<T>, k: nat)
    ensures
        chat_drains(q, true, k) == after_drains(q, k),
    decreases k,
{
    if k > 0 {
        lemma_chat_finalized(chat_step(q, true).1, (k - 1) as nat);
    }
    lemma_fifo_drain(q, k);
}

/// After a successful `LoadMap` of a key, `ApplyMap` of the same key puts
/// the loaded tiles in the slot and keeps its attributes, and
/// `ApplyMapAttribute` puts the loaded attributes in the slot and keeps its
/// tiles; other slots are untouched.
pub proof fn lemma_apply_after_load(
    stored: Map<Seq<char>, ChunkView>,
    window: Seq<ChunkView>,
    mx: i32,
    my: i32,
    mg: u64,
    slot: usize,
    c: ChunkView,
    l: Option<ChunkView>,
)
    requires
        slot < window.len(),
    ensures
        ({
            let (s1, w1) = task_effect(BufferTaskEnum::LoadMap(mx, my, mg), stored, window, Some(c));
            let (s2, w2) = task_effect(BufferTaskEnum::ApplyMap(mx, my, mg, slot), s1, w1, l);
            &&& w2.len() == window.len()
            &&& w2[slot as int] == ChunkView { tiles: c.tiles, attributes: window[slot as int].attributes }
            &&& forall|i: int| 0 <= i < window.len() && i != slot ==> w2[i] == window[i]
        }),
        ({
            let (s1, w1) = task_effect(BufferTaskEnum::LoadMap(mx, my, mg), stored, window, Some(c));
            let (s2, w2) = task_effect(
                BufferTaskEnum::ApplyMapAttribute(mx, my, mg, slot),
                s1,
                w1,
                l,
            );
            &&& w2.len() == window.len()
            &&& w2[slot as int] == ChunkView { tiles: window[slot as int].tiles, attributes: c.attributes }
            &&& forall|i: int| 0 <= i < window.len() && i != slot ==> w2[i] == window[i]
        }),
{
}

/// Applying a key that has no cached chunk, because it was never loaded or
/// its load failed, leaves the window as it was; a failed load changes
/// nothing.
pub proof fn lemma_apply_without_load(
    stored: Map<Seq<char>, ChunkView>,
    window: Seq<ChunkView>,
    mx: i32,
    my: i32,
    mg: u64,
    slot: usize,
    l: Option<ChunkView>,
)
    requires
        !stored.contains_key(map_key(mx, my, mg)),
    ensures
        task_effect(BufferTaskEnum::LoadMap(mx, my, mg), stored, window, None) == (stored, window),
        task_effect(BufferTaskEnum::ApplyMap(mx, my, mg, slot), stored, window, l).1 == window,
        task_effect(BufferTaskEnum::ApplyMapAttribute(mx, my, mg, slot), stored, window, l).1
            == window,
{
}

/// After `UnloadMap` of a key, applying the same key (with no load in
/// between) leaves the window as it was.
pub proof fn lemma_apply_after_unload(
    stored: Map<Seq<char>, ChunkView>,
    window: Seq<ChunkView>,
    mx: i32,
    my: i32,
    mg: u64,
    slot: usize,
    l1: Option<ChunkView>,
    l2: Option<ChunkView>,
)
    ensures
        ({
            let (s1, w1) = task_effect(BufferTaskEnum::UnloadMap(mx, my, mg), stored, window, l1);
            &&& w1 == window
            &&& task_effect(BufferTaskEnum::ApplyMap(mx, my, mg, slot), s1, w1, l2).1 == window
            &&& task_effect(BufferTaskEnum::ApplyMapAttribute(mx, my, mg, slot), s1, w1, l2).1
                == window
        }),
{
}

} // verus!
