//! Playback of a decoded animation: a cursor that advances against a
//! millisecond clock, and one texture slot per frame, filled on demand or
//! all at once through a texture allocator.

use vstd::prelude::*;

use vstd::arithmetic::div_mod::lemma_fundamental_div_mod_converse;

use crate::decode::{decode_gif, gif_decodable, gif_decodes_to, AnimatedGif, DecodeError};

verus! {

/// One upload: the name, width, height and pixels handed over, and what came back.
pub type Upload<H> = (Seq<char>, u16, u16, Seq<u8>, Option<H>);

/// Uploads RGBA pixel buffers as renderable textures.
pub trait TextureAllocator<H> {
    /// Every upload asked of this allocator so far, in order.
    spec fn uploads(&self) -> Seq<Upload<H>>;

    /// Uploads a `width` by `height` RGBA buffer under `name`; `None` where the
    /// upload failed.
    fn load_texture(&mut self, name: String, width: u16, height: u16, rgba: &Vec<u8>) -> (r: Option<H>)
        ensures
            final(self).uploads() == old(self).uploads().push((name@, width, height, rgba@, r)),
    ;
}

/// The decimal digit for `d`.
pub open spec fn digit_char(d: nat) -> char {
    if d == 0 { '0' } else if d == 1 { '1' } else if d == 2 { '2' } else if d == 3 { '3' }
    else if d == 4 { '4' } else if d == 5 { '5' } else if d == 6 { '6' } else if d == 7 { '7' }
    else if d == 8 { '8' } else { '9' }
}

/// `n` written in decimal, without leading zeros.
pub open spec fn decimal(n: nat) -> Seq<char>
    decreases n,
{
    if n < 10 {
        seq![digit_char(n)]
    } else {
        decimal(n / 10).push(digit_char(n % 10))
    }
}

/// The name under which frame `frame` of load `load_id` is uploaded:
/// `gif_<load>_frame_<frame>`.
pub open spec fn frame_texture_name(load_id: u64, frame: usize) -> Seq<char> {
    seq!['g', 'i', 'f', '_'] + decimal(load_id as nat) + seq!['_', 'f', 'r', 'a', 'm', 'e', '_']
        + decimal(frame as nat)
}

/// `c` is one of the ten decimal digits.
pub open spec fn is_digit(c: char) -> bool {
    '0' <= c <= '9'
}

proof fn lemma_decimal_digits(n: nat)
    ensures
        decimal(n).len() >= 1,
        n >= 10 ==> decimal(n).len() >= 2,
        forall|k: int| 0 <= k < decimal(n).len() ==> is_digit(#[trigger] decimal(n)[k]),
    decreases n,
{
    if n >= 10 {
        lemma_decimal_digits(n / 10);
        let p = decimal(n / 10);
        assert forall|k: int| 0 <= k < decimal(n).len() implies is_digit(#[trigger] decimal(n)[k]) by {
            if k < p.len() {
                assert(decimal(n)[k] == p[k]);
            }
        }
    }
}

proof fn lemma_decimal_injective(a: nat, b: nat)
    requires
        decimal(a) == decimal(b),
    ensures
        a == b,
    decreases a,
{
    lemma_decimal_digits(a);
    lemma_decimal_digits(b);
    if a >= 10 && b >= 10 {
        let da = decimal(a / 10);
        let db = decimal(b / 10);
        assert(decimal(a).last() == digit_char(a % 10));
        assert(decimal(b).last() == digit_char(b % 10));
        assert(a % 10 == b % 10);
        assert(da =~= decimal(a).drop_last());
        assert(db =~= decimal(b).drop_last());
        lemma_decimal_injective(a / 10, b / 10);
        assert(a == 10 * (a / 10) + a % 10);
        assert(b == 10 * (b / 10) + b % 10);
    } else if a < 10 && b < 10 {
        assert(decimal(a) == seq![digit_char(a)]);
        assert(decimal(b) == seq![digit_char(b)]);
        assert(digit_char(a) == decimal(a)[0]);
        assert(digit_char(a) == digit_char(b));
    } else {
        assert(decimal(a).len() != decimal(b).len());
    }
}

/// Textures of different loads, or of different frames of one load, get
/// different names, so no upload reuses the name of an earlier one.
pub proof fn lemma_texture_names_distinct(a: u64, i: usize, b: u64, j: usize)
    requires
        a != b || i != j,
    ensures
        frame_texture_name(a, i) != frame_texture_name(b, j),
{
    let da = decimal(a as nat);
    let db = decimal(b as nat);
    let fi = decimal(i as nat);
    let fj = decimal(j as nat);
    lemma_decimal_digits(a as nat);
    lemma_decimal_digits(b as nat);
    let sep = seq!['_', 'f', 'r', 'a', 'm', 'e', '_'];
    let prefix = seq!['g', 'i', 'f', '_'];
    if frame_texture_name(a, i) == frame_texture_name(b, j) {
        let s = frame_texture_name(a, i);
        assert(s == prefix + da + sep + fi);
        assert(s == prefix + db + sep + fj);
        if da.len() < db.len() {
            assert(s[4 + da.len() as int] == '_');
            assert(s[4 + da.len() as int] == db[da.len() as int]);
        } else if db.len() < da.len() {
            assert(s[4 + db.len() as int] == '_');
            assert(s[4 + db.len() as int] == da[db.len() as int]);
        } else {
            assert(da =~= s.subrange(4, 4 + da.len() as int));
            assert(db =~= s.subrange(4, 4 + db.len() as int));
            lemma_decimal_injective(a as nat, b as nat);
            assert(fi =~= s.subrange(4 + da.len() as int + 7, s.len() as int));
            assert(fj =~= s.subrange(4 + db.len() as int + 7, s.len() as int));
            lemma_decimal_injective(i as nat, j as nat);
        }
    }
}

/// Relies on `format!`, whose `Display` of an integer writes it in decimal,
/// to build the texture name.
#[verifier::external_body]
fn texture_name(load_id: u64, frame: usize) -> (r: String)
    ensures
        r@ == frame_texture_name(load_id, frame),
{
    format!("gif_{}_frame_{}", load_id, frame)
}

/// Indices, in increasing order, of the empty slots among the first `n` of `slots`.
pub open spec fn empty_slots<H>(slots: Seq<Option<H>>, n: nat) -> Seq<int>
    decreases n,
{
    if n == 0 {
        Seq::empty()
    } else if slots[n - 1] is None {
        empty_slots(slots, (n - 1) as nat).push(n - 1)
    } else {
        empty_slots(slots, (n - 1) as nat)
    }
}

proof fn lemma_empty_slots_bound<H>(slots: Seq<Option<H>>, n: nat)
    ensures
        forall|k: int|
            0 <= k < empty_slots(slots, n).len() ==> 0 <= #[trigger] empty_slots(slots, n)[k] < n,
    decreases n,
{
    if n > 0 {
        lemma_empty_slots_bound(slots, (n - 1) as nat);
        let prev = empty_slots(slots, (n - 1) as nat);
        assert forall|k: int|
            0 <= k < empty_slots(slots, n).len() implies 0 <= #[trigger] empty_slots(slots, n)[k]
            < n by {
            if k < prev.len() {
                assert(empty_slots(slots, n)[k] == prev[k]);
            }
        }
    }
}

/// The load number that follows `id`; it wraps only after `u64::MAX` loads.
pub open spec fn next_load_id(id: u64) -> u64 {
    if id < u64::MAX {
        (id + 1) as u64
    } else {
        0
    }
}

/// Where the cursor stands, and when it last moved, once a tick at time `now`
/// has compared the time elapsed with the current frame's display time.
pub open spec fn next_cursor(cur: nat, last: u64, delays: Seq<u64>, now: u64) -> (nat, u64) {
    let elapsed: int = if now >= last { now - last } else { 0 };
    if elapsed >= delays[cur as int] {
        ((cur + 1) % delays.len(), now)
    } else {
        (cur, last)
    }
}

/// The cursor and the time of its last move after a tick at each of `times`, in order.
pub open spec fn run_ticks(cur: nat, last: u64, delays: Seq<u64>, times: Seq<u64>) -> (nat, u64)
    decreases times.len(),
{
    if times.len() == 0 {
        (cur, last)
    } else {
        let prev = run_ticks(cur, last, delays, times.drop_last());
        next_cursor(prev.0, prev.1, delays, times.last())
    }
}

/// A tick moves the cursor by at most one frame, however much time has passed.
pub proof fn lemma_tick_moves_at_most_one(cur: nat, last: u64, delays: Seq<u64>, now: u64)
    requires
        cur < delays.len(),
    ensures
        next_cursor(cur, last, delays, now).0 == cur || next_cursor(cur, last, delays, now).0 == (
        cur + 1) % delays.len(),
        next_cursor(cur, last, delays, now).0 < delays.len(),
{
    lemma_wrap_next(cur as int, delays.len() as int);
}

/// Starting on frame 0 at time `start`, with tick `i` made when exactly the
/// display time of frame `i mod n` has passed since tick `i - 1` (or since
/// `start`), the cursor stands on frame `N mod n` after `N` ticks.
pub proof fn lemma_ticks_on_schedule(delays: Seq<u64>, start: u64, times: Seq<u64>)
    requires
        delays.len() >= 1,
        forall|i: int|
            0 <= i < times.len() ==> #[trigger] times[i] == (if i == 0 {
                start as int
            } else {
                times[i - 1] as int
            }) + delays[i % delays.len() as int],
    ensures
        run_ticks(0, start, delays, times).0 == times.len() % delays.len(),
        run_ticks(0, start, delays, times).1 == if times.len() == 0 {
            start
        } else {
            times.last()
        },
    decreases times.len(),
{
    let n = delays.len() as int;
    if times.len() == 0 {
        lemma_fundamental_div_mod_converse(0, n, 0, 0);
    } else {
        let m = times.len() - 1;
        let prev = times.drop_last();
        assert forall|i: int| 0 <= i < prev.len() implies #[trigger] prev[i] == (if i == 0 {
            start as int
        } else {
            prev[i - 1] as int
        }) + delays[i % n] by {
            assert(times[i] == prev[i]);
        }
        lemma_ticks_on_schedule(delays, start, prev);
        let c = (m % n) as nat;
        vstd::arithmetic::div_mod::lemma_mod_bound(m, n);
        assert(times[m] == (if m == 0 { start as int } else { times[m - 1] as int }) + delays[m % n]);
        lemma_wrap_next(c as int, n);
        vstd::arithmetic::div_mod::lemma_add_mod_noop(m, 1, n);
        lemma_fundamental_div_mod_converse(1, n, if n == 1 { 1 } else { 0 }, if n == 1 { 0 } else { 1 });
    }
}

proof fn lemma_wrap_next(cur: int, n: int)
    requires
        0 <= cur < n,
    ensures
        (cur + 1) % n == if cur + 1 == n { 0 } else { cur + 1 },
{
    if cur + 1 == n {
        lemma_fundamental_div_mod_converse(cur + 1, n, 1, 0);
    } else {
        lemma_fundamental_div_mod_converse(cur + 1, n, 0, cur + 1);
    }
}

/// Plays a decoded GIF: holds its frames, the current frame, and one texture
/// slot per frame.
pub struct GifHandler<H> {
    gif: Option<AnimatedGif>,
    textures: Vec<Option<H>>,
    current_frame: usize,
    last_frame_time: u64,
    gif_load_id: u64,
    current_path: Option<String>,
}

impl<H> GifHandler<H> {
    /// The animation being played, if any.
    pub closed spec fn image(&self) -> Option<AnimatedGif> {
        self.gif
    }

    /// One slot per frame: the frame's texture, once uploaded.
    pub closed spec fn slots(&self) -> Seq<Option<H>> {
        self.textures@
    }

    /// Index of the frame being shown.
    pub closed spec fn cursor(&self) -> nat {
        self.current_frame as nat
    }

    /// Clock time, in milliseconds, at which the cursor last moved.
    pub closed spec fn clock(&self) -> u64 {
        self.last_frame_time
    }

    /// How many animations have been loaded; it keeps texture names apart across loads.
    pub closed spec fn load_id(&self) -> u64 {
        self.gif_load_id
    }

    /// The path of the animation being played.
    pub closed spec fn path(&self) -> Option<String> {
        self.current_path
    }

    /// A loaded animation is well formed, with one slot per frame and the
    /// cursor on one of them; with none loaded there are no slots.
    pub open spec fn wf(&self) -> bool {
        match self.image() {
            Some(g) => g.wf() && self.slots().len() == g.frames@.len() && self.cursor()
                < g.frames@.len(),
            None => self.slots().len() == 0 && self.cursor() == 0,
        }
    }

    /// The texture of the frame being shown, if it has been uploaded.
    pub open spec fn current_slot(&self) -> Option<H> {
        if self.image() is Some {
            self.slots()[self.cursor() as int]
        } else {
            None
        }
    }

    /// The upload of frame `i` of the animation being played, under its name
    /// for the current load, that gave back `handle`.
    pub open spec fn upload_of(&self, i: int, handle: Option<H>) -> Upload<H> {
        let g = self.image()->Some_0;
        (frame_texture_name(self.load_id(), i as usize), g.width, g.height, g.frames@[i]@, handle)
    }

    /// The uploads that filling the empty slots of `self`, in increasing order,
    /// makes, given the slots `after` that result.
    pub open spec fn prime_uploads(&self, after: Seq<Option<H>>) -> Seq<Upload<H>> {
        empty_slots(self.slots(), self.slots().len()).map_values(|i: int| self.upload_of(i, after[i]))
    }

    /// Canvas width and height of the animation being played.
    pub open spec fn spec_dimensions(&self) -> Option<(u16, u16)> {
        match self.image() {
            Some(g) => Some((g.width, g.height)),
            None => None,
        }
    }

    /// A player with nothing loaded, whose clock starts at `now_ms`.
    pub fn new(now_ms: u64) -> (r: Self)
        ensures
            r.wf(),
            r.image() is None,
            r.clock() == now_ms,
            r.load_id() == 0,
            r.path() is None,
    {
        GifHandler {
            gif: None,
            textures: Vec::new(),
            current_frame: 0,
            last_frame_time: now_ms,
            gif_load_id: 0,
            current_path: None,
        }
    }

    /// Takes the outcome of decoding the file at `path`. A decoded animation
    /// replaces the one being played: the cursor goes back to the first frame,
    /// every texture slot is emptied, and the load number moves on. A decoding
    /// error leaves the player as it was. Returns whether the animation was taken.
    pub fn load_decoded(&mut self, path: Option<String>, decoded: Result<AnimatedGif, DecodeError>) -> (r:
        bool)
        requires
            old(self).wf(),
            decoded is Ok ==> decoded->Ok_0.wf(),
        ensures
            r == decoded is Ok,
            !r ==> *final(self) == *old(self),
            r ==> {
                &&& final(self).wf()
                &&& final(self).image() == Some(decoded->Ok_0)
                &&& final(self).cursor() == 0
                &&& final(self).clock() == old(self).clock()
                &&& final(self).load_id() == next_load_id(old(self).load_id())
                &&& final(self).path() == path
                &&& final(self).slots().len() == decoded->Ok_0.frames@.len()
                &&& forall|i: int| 0 <= i < final(self).slots().len() ==> #[trigger] final(self).slots()[i] is None
                &&& final(self).current_slot() is None
            },
    {
        match decoded {
            Ok(g) => {
                let n = g.frames.len();
                let mut textures: Vec<Option<H>> = Vec::new();
                let mut i: usize = 0;
                while i < n
                    invariant
                        i <= n,
                        textures@.len() == i,
                        forall|j: int| 0 <= j < i ==> #[trigger] textures@[j] is None,
                    decreases n - i,
                {
                    textures.push(None);
                    i = i + 1;
                }
                self.gif = Some(g);
                self.textures = textures;
                self.current_frame = 0;
                self.gif_load_id = if self.gif_load_id < u64::MAX {
                    self.gif_load_id + 1
                } else {
                    0
                };
                self.current_path = path;
                true
            },
            Err(_) => false,
        }
    }

    /// Decodes `bytes`, the contents of the file at `path`, and plays the
    /// result as `load_decoded` says; on failure nothing changes.
    pub fn load_from_path(&mut self, path: Option<String>, bytes: &[u8]) -> (r: bool)
        requires
            old(self).wf(),
        ensures
            r == gif_decodable(bytes@),
            !r ==> *final(self) == *old(self),
            r ==> {
                &&& final(self).wf()
                &&& final(self).image() is Some
                &&& gif_decodes_to(bytes@, final(self).image()->Some_0)
                &&& final(self).cursor() == 0
                &&& final(self).clock() == old(self).clock()
                &&& final(self).load_id() == next_load_id(old(self).load_id())
                &&& final(self).path() == path
                &&& forall|i: int| 0 <= i < final(self).slots().len() ==> #[trigger] final(self).slots()[i] is None
                &&& final(self).current_slot() is None
            },
    {
        let decoded = decode_gif(bytes);
        self.load_decoded(path, decoded)
    }

    /// Uploads the texture of every frame whose slot is empty, in increasing
    /// order of frame, each under its name for the current load, and stores
    /// what the allocator gave back in that slot (`None` where the upload
    /// failed, to be retried later). Slots already filled, the cursor and the
    /// clock are left as they are; with nothing to upload the allocator is not called.
    pub fn prime_cache<A: TextureAllocator<H>>(&mut self, alloc: &mut A)
        requires
            old(self).wf(),
        ensures
            final(self).wf(),
            final(self).image() == old(self).image(),
            final(self).cursor() == old(self).cursor(),
            final(self).clock() == old(self).clock(),
            final(self).load_id() == old(self).load_id(),
            final(self).path() == old(self).path(),
            final(self).slots().len() == old(self).slots().len(),
            forall|i: int| 0 <= i < old(self).slots().len() && (#[trigger] old(self).slots()[i]) is Some
                ==> final(self).slots()[i] == old(self).slots()[i],
            old(self).image() is None ==> *final(alloc) == *old(alloc),
            old(self).image() is Some ==> final(alloc).uploads() == old(alloc).uploads()
                + old(self).prime_uploads(final(self).slots()),
            empty_slots(old(self).slots(), old(self).slots().len()).len() == 0 ==> *final(alloc)
                == *old(alloc),
    {
        match &self.gif {
            Some(g) => {
                let n = self.textures.len();
                proof {
                    lemma_empty_slots_bound(old(self).textures@, n as nat);
                }
                let mut i: usize = 0;
                while i < n
                    invariant
                        i <= n,
                        n == self.textures@.len(),
                        n == g.frames@.len(),
                        self.gif == Some(*g),
                        old(self).gif == Some(*g),
                        g.wf(),
                        self.current_frame == old(self).current_frame,
                        self.last_frame_time == old(self).last_frame_time,
                        self.gif_load_id == old(self).gif_load_id,
                        self.current_path == old(self).current_path,
                        forall|j: int| 0 <= j < n && (#[trigger] old(self).textures@[j]) is Some
                            ==> self.textures@[j] == old(self).textures@[j],
                        forall|j: int| i <= j < n ==> #[trigger] self.textures@[j] == old(
                            self).textures@[j],
                        alloc.uploads() == old(alloc).uploads() + empty_slots(
                            old(self).textures@,
                            i as nat,
                        ).map_values(|j: int| old(self).upload_of(j, self.textures@[j])),
                        empty_slots(old(self).textures@, i as nat).len() == 0 ==> *alloc == *old(
                            alloc),
                    decreases n - i,
                {
                    proof {
                        lemma_empty_slots_bound(old(self).textures@, i as nat);
                        lemma_empty_slots_bound(old(self).textures@, (i + 1) as nat);
                    }
                    let ghost es = empty_slots(old(self).textures@, i as nat);
                    let ghost before = self.textures@;
                    if self.textures[i].is_none() {
                        let name = texture_name(self.gif_load_id, i);
                        let t = alloc.load_texture(name, g.width, g.height, &g.frames[i]);
                        self.textures.set(i, t);
                        assert(es.map_values(|j: int| old(self).upload_of(j, self.textures@[j]))
                            =~= es.map_values(|j: int| old(self).upload_of(j, before[j])));
                        assert(empty_slots(old(self).textures@, (i + 1) as nat).map_values(
                            |j: int| old(self).upload_of(j, self.textures@[j]),
                        ) =~= es.map_values(|j: int| old(self).upload_of(j, before[j])).push(
                            old(self).upload_of(i as int, t),
                        ));
                        assert(old(alloc).uploads() + es.map_values(
                            |j: int| old(self).upload_of(j, before[j]),
                        ).push(old(self).upload_of(i as int, t)) =~= (old(alloc).uploads()
                            + es.map_values(|j: int| old(self).upload_of(j, before[j]))).push(
                            old(self).upload_of(i as int, t),
                        ));
                    } else {
                        assert(empty_slots(old(self).textures@, (i + 1) as nat) == es);
                    }
                    i = i + 1;
                }
            },
            None => {},
        }
    }

    /// Uploads the current frame's texture if its slot is empty, storing what
    /// the allocator gave back (`None` where it failed), then moves the
    /// cursor to the next frame, wrapping after the last, where the time elapsed
    /// since its last move, at clock time `now_ms`, has reached the current
    /// frame's display time. It moves at most one frame per call.
    pub fn tick<A: TextureAllocator<H>>(&mut self, alloc: &mut A, now_ms: u64)
        requires
            old(self).wf(),
        ensures
            final(self).wf(),
            final(self).image() == old(self).image(),
            final(self).load_id() == old(self).load_id(),
            final(self).path() == old(self).path(),
            old(self).image() is None ==> *final(self) == *old(self),
            old(self).image() is Some ==> (final(self).cursor(), final(self).clock()) == next_cursor(
                old(self).cursor(),
                old(self).clock(),
                old(self).image()->Some_0.delays@,
                now_ms,
            ),
            final(self).slots().len() == old(self).slots().len(),
            forall|i: int|
                0 <= i < old(self).slots().len() && i != old(self).cursor() ==> #[trigger] final(self).slots()[i]
                    == old(self).slots()[i],
            old(self).current_slot() is Some ==> final(self).slots()[old(self).cursor() as int]
                == old(self).current_slot(),
            old(self).current_slot() is Some || old(self).image() is None ==> *final(alloc) == *old(
                alloc),
            old(self).image() is Some && old(self).current_slot() is None ==> final(alloc).uploads()
                == old(alloc).uploads().push(
                old(self).upload_of(
                    old(self).cursor() as int,
                    final(self).slots()[old(self).cursor() as int],
                ),
            ),
    {
        match &self.gif {
            Some(g) => {
                let cur = self.current_frame;
                let n = g.frames.len();
                if self.textures[cur].is_none() {
                    let name = texture_name(self.gif_load_id, cur);
                    let t = alloc.load_texture(name, g.width, g.height, &g.frames[cur]);
                    self.textures.set(cur, t);
                }
                let delay = g.delays[cur];
                let elapsed: u64 = if now_ms >= self.last_frame_time {
                    now_ms - self.last_frame_time
                } else {
                    0
                };
                if elapsed >= delay {
                    proof {
                        lemma_wrap_next(cur as int, n as int);
                    }
                    self.current_frame = if cur + 1 == n {
                        0
                    } else {
                        cur + 1
                    };
                    self.last_frame_time = now_ms;
                }
            },
            None => {},
        }
    }

    /// The texture of the frame being shown, if it has been uploaded.
    pub fn current_resource(&self) -> (r: Option<&H>)
        requires
            self.wf(),
        ensures
            r is Some <==> self.current_slot() is Some,
            r is Some ==> *r->Some_0 == self.current_slot()->Some_0,
    {
        match &self.gif {
            Some(_) => self.textures[self.current_frame].as_ref(),
            None => None,
        }
    }

    /// Canvas width and height of the animation being played; they depend on
    /// the animation alone, not on the cursor or the texture slots.
    pub fn dimensions(&self) -> (r: Option<(u16, u16)>)
        ensures
            r == self.spec_dimensions(),
    {
        match &self.gif {
            Some(g) => Some((g.width, g.height)),
            None => None,
        }
    }

    /// Index of the frame being shown.
    pub fn current_frame(&self) -> (r: usize)
        ensures
            r == self.cursor(),
    {
        self.current_frame
    }

    /// The path of the animation being played.
    pub fn get_path_string(&self) -> (r: Option<String>)
        ensures
            r is Some <==> self.path() is Some,
            r is Some ==> r->Some_0@ == self.path()->Some_0@,
    {
        match &self.current_path {
            Some(p) => Some(p.clone()),
            None => None,
        }
    }
}

} // verus!
