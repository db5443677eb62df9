use vstd::prelude::*;

use crate::axis::{Axis, AXIS_COUNT, axis_index_spec, axis_of_code};
use crate::config::{ComboModel, Config, ConfigModel, MappingModel};
use crate::delta::{axis_step, compute_delta, lemma_scaled_delta_bound, scaled_delta};
use crate::events::{Action, ActionModel, OutEvent, RawEvent, RelAxis, action_views};
use crate::key::{SteamDeckKey, key_of_code};

verus! {

/// A combo fires exactly when its key set has the same size as the held-key
/// sequence and every held key belongs to it; with equal cardinality this is
/// set equality in substance.
pub open spec fn combo_matches(c: ComboModel, held: Seq<SteamDeckKey>) -> bool {
    &&& c.keys.len() == held.len()
    &&& forall|i: int| 0 <= i < held.len() ==> c.keys.contains(held[i])
}

/// The first combo in declaration order that fires on `held`, if any.
pub open spec fn first_combo(combos: Seq<ComboModel>, held: Seq<SteamDeckKey>) -> Option<
    ComboModel,
>
    decreases combos.len(),
{
    if combos.len() == 0 {
        None
    } else if combo_matches(combos[0], held) {
        Some(combos[0])
    } else {
        first_combo(combos.drop_first(), held)
    }
}

/// The first mapping in declaration order whose source is `key`, if any.
pub open spec fn first_mapping(mappings: Seq<MappingModel>, key: SteamDeckKey) -> Option<
    MappingModel,
>
    decreases mappings.len(),
{
    if mappings.len() == 0 {
        None
    } else if mappings[0].from == key {
        Some(mappings[0])
    } else {
        first_mapping(mappings.drop_first(), key)
    }
}

/// The key-down frame of a destination sequence: presses in declared order.
pub open spec fn down_events(to: Seq<u16>) -> Seq<OutEvent> {
    to.map_values(|c: u16| OutEvent::KeyDown(c))
}

/// The key-up frame of a destination sequence: releases in exactly reversed
/// declared order, mimicking balanced nested key presses.
pub open spec fn up_events(to: Seq<u16>) -> Seq<OutEvent> {
    to.reverse().map_values(|c: u16| OutEvent::KeyUp(c))
}

/// The actions a key-down produces once `held` already includes the new key:
/// the first firing combo's launch; otherwise the first matching mapping's
/// key-down frame; otherwise nothing. A firing combo shadows every mapping.
pub open spec fn key_down_actions(
    cfg: ConfigModel,
    held: Seq<SteamDeckKey>,
    key: SteamDeckKey,
) -> Seq<ActionModel> {
    match first_combo(cfg.combo, held) {
        Some(c) => seq![ActionModel::Launch(c.launch)],
        None => match first_mapping(cfg.mapping, key) {
            Some(m) => seq![ActionModel::Emit(down_events(m.to))],
            None => Seq::empty(),
        },
    }
}

/// The actions a key-up produces: one reversed key-up frame for every mapping
/// whose source is `key` (all of them, not just the first), in declaration
/// order. Key-up never launches combos.
pub open spec fn key_up_actions(mappings: Seq<MappingModel>, key: SteamDeckKey) -> Seq<
    ActionModel,
>
    decreases mappings.len(),
{
    if mappings.len() == 0 {
        Seq::empty()
    } else {
        let rest = key_up_actions(mappings.drop_first(), key);
        if mappings[0].from == key {
            seq![ActionModel::Emit(up_events(mappings[0].to))] + rest
        } else {
            rest
        }
    }
}

/// The held-key sequence with its first occurrence of `key` removed.
pub open spec fn remove_first(held: Seq<SteamDeckKey>, key: SteamDeckKey) -> Seq<SteamDeckKey> {
    match held.index_of_first(key) {
        Some(i) => held.remove(i),
        None => held,
    }
}

/// The held-key sequence after one key transition: key-down appends, key-up
/// removes the matching key.
pub open spec fn held_after_key(
    held: Seq<SteamDeckKey>,
    key: SteamDeckKey,
    pressed: bool,
) -> Seq<SteamDeckKey> {
    if pressed {
        held.push(key)
    } else {
        remove_first(held, key)
    }
}

/// The actions one key transition produces.
pub open spec fn key_actions(
    cfg: ConfigModel,
    held: Seq<SteamDeckKey>,
    key: SteamDeckKey,
    pressed: bool,
) -> Seq<ActionModel> {
    if pressed {
        key_down_actions(cfg, held.push(key), key)
    } else {
        key_up_actions(cfg.mapping, key)
    }
}

/// The per-surface relative role of a semantic axis: the output axis its
/// deltas drive and the exact scale `num / den` applied, defined for the four
/// trackpad surfaces only. Joysticks and triggers pass through with no output.
pub open spec fn rel_role(a: Axis) -> Option<(RelAxis, int, int)> {
    match a {
        Axis::LeftTrackpadX => Some((RelAxis::HWheel, 1, 10000)),
        Axis::LeftTrackpadY => Some((RelAxis::Wheel, 1, 10000)),
        Axis::RightTrackpadX => Some((RelAxis::X, 50, 10000)),
        Axis::RightTrackpadY => Some((RelAxis::Y, -50, 10000)),
        _ => None,
    }
}

/// The relative event one absolute-axis sample translates to, if any.
pub open spec fn axis_event_out(cache: Seq<i32>, code: u16, value: i32) -> Option<OutEvent> {
    let a = axis_of_code(code);
    match rel_role(a) {
        None => None,
        Some((rel, num, den)) => {
            let st = axis_step(cache[axis_index_spec(a)] as int, value as int, num, den);
            match st.0 {
                None => None,
                Some(d) => Some(OutEvent::Rel(rel, d as i32)),
            }
        },
    }
}

/// The axis-history vector after one absolute-axis sample.
pub open spec fn axis_event_cache(cache: Seq<i32>, code: u16, value: i32) -> Seq<i32> {
    let a = axis_of_code(code);
    match rel_role(a) {
        None => cache,
        Some((rel, num, den)) => {
            let idx = axis_index_spec(a);
            let st = axis_step(cache[idx] as int, value as int, num, den);
            if st.1 == value as int {
                cache.update(idx, value)
            } else {
                cache
            }
        },
    }
}

/// If no combo among the first `i` fires, the first firing combo lies in the
/// remainder of the list.
proof fn lemma_first_combo_prefix(combos: Seq<ComboModel>, held: Seq<SteamDeckKey>, i: int)
    requires
        0 <= i <= combos.len(),
        forall|j: int| 0 <= j < i ==> !combo_matches(combos[j], held),
    ensures
        first_combo(combos, held) == first_combo(combos.skip(i), held),
    decreases i,
{
    if i > 0 {
        lemma_first_combo_prefix(combos.drop_first(), held, i - 1);
        assert(combos.drop_first().skip(i - 1) =~= combos.skip(i));
    } else {
        assert(combos.skip(0) =~= combos);
    }
}

/// If no mapping among the first `i` matches, the first matching mapping lies
/// in the remainder of the list.
proof fn lemma_first_mapping_prefix(mappings: Seq<MappingModel>, key: SteamDeckKey, i: int)
    requires
        0 <= i <= mappings.len(),
        forall|j: int| 0 <= j < i ==> mappings[j].from != key,
    ensures
        first_mapping(mappings, key) == first_mapping(mappings.skip(i), key),
    decreases i,
{
    if i > 0 {
        lemma_first_mapping_prefix(mappings.drop_first(), key, i - 1);
        assert(mappings.drop_first().skip(i - 1) =~= mappings.skip(i));
    } else {
        assert(mappings.skip(0) =~= mappings);
    }
}

/// A combo fires only with an exact size match, and the fired combo is the
/// first one in declaration order that the held keys satisfy; when none is
/// satisfied, none fires.
pub proof fn lemma_first_combo_spec(combos: Seq<ComboModel>, held: Seq<SteamDeckKey>)
    ensures
        match first_combo(combos, held) {
            Some(c) => {
                &&& exists|i: int|
                    0 <= i < combos.len() && combos[i] == c && combo_matches(c, held) && forall|
                        j: int,
                    | 0 <= j < i ==> !combo_matches(combos[j], held)
                &&& c.keys.len() == held.len()
            },
            None => forall|i: int| 0 <= i < combos.len() ==> !combo_matches(combos[i], held),
        },
    decreases combos.len(),
{
    if combos.len() > 0 && !combo_matches(combos[0], held) {
        lemma_first_combo_spec(combos.drop_first(), held);
        match first_combo(combos.drop_first(), held) {
            Some(c) => {
                let i = choose|i: int|
                    0 <= i < combos.drop_first().len() && combos.drop_first()[i] == c
                        && combo_matches(c, held) && forall|j: int|
                        0 <= j < i ==> !combo_matches(combos.drop_first()[j], held);
                assert(combos[i + 1] == c);
                assert(forall|j: int| 1 <= j < i + 1 ==> combos[j] == combos.drop_first()[j - 1]);
                assert(forall|j: int| 0 <= j < i + 1 ==> !combo_matches(combos[j], held));
            },
            None => {
                assert(forall|i: int|
                    1 <= i < combos.len() ==> combos.drop_first()[i - 1] == combos[i]);
            },
        }
    }
}

/// Mapping emission is order-preserving on key-down and exactly reversed on
/// key-up: the down frame presses `to[i]` at position `i`, and the up frame
/// releases `to[len - 1 - i]` at position `i`.
pub proof fn lemma_mapping_emission_order(to: Seq<u16>)
    ensures
        down_events(to).len() == to.len(),
        up_events(to).len() == to.len(),
        forall|i: int| 0 <= i < to.len() ==> down_events(to)[i] == OutEvent::KeyDown(to[i]),
        forall|i: int|
            0 <= i < to.len() ==> up_events(to)[i] == OutEvent::KeyUp(to[to.len() - 1 - i]),
{
}

/// When a combo fires on a key-down, its launch is the only action: no mapping
/// frame is produced for that event.
pub proof fn lemma_combo_precedence(cfg: ConfigModel, held: Seq<SteamDeckKey>, key: SteamDeckKey)
    requires
        first_combo(cfg.combo, held) is Some,
    ensures
        key_down_actions(cfg, held, key) == seq![
            ActionModel::Launch(first_combo(cfg.combo, held)->Some_0.launch),
        ],
        forall|i: int|
            0 <= i < key_down_actions(cfg, held, key).len() ==> !(key_down_actions(
                cfg,
                held,
                key,
            )[i] is Emit),
{
}

/// The translation engine: per-axis history, the held-key state of the
/// session, the batch pending until the next synchronization marker, and the
/// immutable configuration.
pub struct Daemon {
    cache: Vec<i32>,
    key_combo: Vec<SteamDeckKey>,
    pressed_keys: usize,
    batch: Vec<OutEvent>,
    config: Config,
}

/// The mathematical content of a `Daemon`.
#[verifier::ext_equal]
pub struct DaemonModel {
    pub cache: Seq<i32>,
    pub held: Seq<SteamDeckKey>,
    pub pressed: nat,
    pub batch: Seq<OutEvent>,
    pub config: ConfigModel,
}

impl View for Daemon {
    type V = DaemonModel;

    closed spec fn view(&self) -> DaemonModel {
        DaemonModel {
            cache: self.cache@,
            held: self.key_combo@,
            pressed: self.pressed_keys as nat,
            batch: self.batch@,
            config: self.config@,
        }
    }
}

/// Does `keys` contain `key`?
fn contains_key(keys: &Vec<SteamDeckKey>, key: SteamDeckKey) -> (r: bool)
    ensures
        r == keys@.contains(key),
{
    let mut i: usize = 0;
    while i < keys.len()
        invariant
            0 <= i <= keys@.len(),
            forall|j: int| 0 <= j < i ==> keys@[j] != key,
        decreases keys@.len() - i,
    {
        if keys[i] == key {
            return true;
        }
        i += 1;
    }
    false
}

/// Does every element of `held` occur in `keys`?
fn contains_all(held: &Vec<SteamDeckKey>, keys: &Vec<SteamDeckKey>) -> (r: bool)
    ensures
        r == (forall|i: int| 0 <= i < held@.len() ==> keys@.contains(held@[i])),
{
    let mut i: usize = 0;
    while i < held.len()
        invariant
            0 <= i <= held@.len(),
            forall|j: int| 0 <= j < i ==> keys@.contains(held@[j]),
        decreases held@.len() - i,
    {
        if !contains_key(keys, held[i]) {
            return false;
        }
        i += 1;
    }
    true
}

/// Builds the key-down frame of a destination sequence, in declared order.
fn down_vec(to: &Vec<u16>) -> (r: Vec<OutEvent>)
    ensures
        r@ == down_events(to@),
{
    let mut r: Vec<OutEvent> = Vec::new();
    let mut i: usize = 0;
    while i < to.len()
        invariant
            0 <= i <= to@.len(),
            r@.len() == i,
            forall|j: int| 0 <= j < i ==> r@[j] == OutEvent::KeyDown(to@[j]),
        decreases to@.len() - i,
    {
        r.push(OutEvent::KeyDown(to[i]));
        i += 1;
    }
    proof {
        assert(r@ =~= down_events(to@));
    }
    r
}

/// Builds the key-up frame of a destination sequence, in exactly reversed
/// declared order.
fn up_vec(to: &Vec<u16>) -> (r: Vec<OutEvent>)
    ensures
        r@ == up_events(to@),
{
    let mut r: Vec<OutEvent> = Vec::new();
    let mut i: usize = to.len();
    while i > 0
        invariant
            0 <= i <= to@.len(),
            r@.len() == to@.len() - i,
            forall|j: int| 0 <= j < r@.len() ==> r@[j] == OutEvent::KeyUp(to@[to@.len() - 1 - j]),
        decreases i,
    {
        i -= 1;
        r.push(OutEvent::KeyUp(to[i]));
    }
    proof {
        assert(r@ =~= up_events(to@));
    }
    r
}

impl Daemon {
    /// The engine's invariant: one history cell per axis, and the redundant
    /// pressed-key counter equal to the held-key sequence's length.
    pub open spec fn wf(self) -> bool {
        &&& self@.cache.len() == AXIS_COUNT
        &&& self@.pressed == self@.held.len()
    }

    /// A fresh engine: all axis history at zero, no key held, an empty batch,
    /// and the given configuration, immutable from here on.
    pub fn new(config: Config) -> (r: Daemon)
        ensures
            r.wf(),
            r@.config == config@,
            r@.held == Seq::<SteamDeckKey>::empty(),
            r@.pressed == 0,
            r@.batch == Seq::<OutEvent>::empty(),
            r@.cache.len() == AXIS_COUNT,
            forall|i: int| 0 <= i < AXIS_COUNT ==> r@.cache[i] == 0i32,
    {
        let mut cache: Vec<i32> = Vec::new();
        let mut i: usize = 0;
        while i < AXIS_COUNT
            invariant
                0 <= i <= AXIS_COUNT,
                cache@.len() == i,
                forall|j: int| 0 <= j < i ==> cache@[j] == 0i32,
            decreases AXIS_COUNT - i,
        {
            cache.push(0);
            i += 1;
        }
        Daemon {
            cache,
            key_combo: Vec::new(),
            pressed_keys: 0,
            batch: Vec::new(),
            config,
        }
    }

    /// The number of keys currently held.
    pub fn pressed_count(&self) -> (r: usize)
        ensures
            r == self@.pressed,
    {
        self.pressed_keys
    }

    /// Whether `key` is currently recorded as held.
    pub fn holds(&self, key: SteamDeckKey) -> (r: bool)
        ensures
            r == self@.held.contains(key),
    {
        contains_key(&self.key_combo, key)
    }

    /// One key transition. On key-down the key is recorded, then combos are
    /// tried in declaration order (the first that fires launches its command
    /// and shadows every mapping), then mappings in declaration order (the
    /// first whose source matches emits its key-down frame). On key-up every
    /// matching mapping emits its reversed key-up frame, then the key is
    /// removed and the counter decremented; key-up never launches combos. A
    /// key-up must be for a key currently held: every key-up is preceded by
    /// an unmatched key-down for the same key.
    #[verifier::loop_isolation(false)]
    pub fn handle_key_event(&mut self, key: SteamDeckKey, pressed: bool) -> (r: Vec<Action>)
        requires
            old(self).wf(),
            !pressed ==> old(self)@.held.contains(key),
        ensures
            final(self).wf(),
            final(self)@.held == held_after_key(old(self)@.held, key, pressed),
            pressed ==> final(self)@.pressed == old(self)@.pressed + 1,
            !pressed ==> final(self)@.pressed == old(self)@.pressed - 1,
            action_views(r@) == key_actions(old(self)@.config, old(self)@.held, key, pressed),
            final(self)@.cache == old(self)@.cache,
            final(self)@.batch == old(self)@.batch,
            final(self)@.config == old(self)@.config,
    {
        let mut r: Vec<Action> = Vec::new();
        if pressed {
            self.key_combo.push(key);
            self.pressed_keys = self.key_combo.len();
            let ghost held = self.key_combo@;
            let ghost combos = old(self)@.config.combo;
            let ghost mappings = old(self)@.config.mapping;
            let mut i: usize = 0;
            while i < self.config.combo.len()
                invariant
                    self.wf(),
                    self@.held == held,
                    held == old(self)@.held.push(key),
                    self@.pressed == old(self)@.pressed + 1,
                    self@.cache == old(self)@.cache,
                    self@.batch == old(self)@.batch,
                    self@.config == old(self)@.config,
                    combos == old(self)@.config.combo,
                    0 <= i <= combos.len(),
                    forall|j: int| 0 <= j < i ==> !combo_matches(combos[j], held),
                    r@.len() == 0,
                decreases combos.len() - i,
            {
                let c = &self.config.combo[i];
                if c.keys.len() == self.pressed_keys && contains_all(&self.key_combo, &c.keys) {
                    proof {
                        assert(combos[i as int] == self.config.combo@[i as int]@);
                        assert(combo_matches(combos[i as int], held));
                        lemma_first_combo_prefix(combos, held, i as int);
                        assert(combos.skip(i as int)[0] == combos[i as int]);
                        assert(first_combo(combos, held) == Some(combos[i as int]));
                    }
                    let cmd = c.launch.clone();
                    r.push(Action::Launch(cmd));
                    proof {
                        assert(action_views(r@) =~= key_actions(
                            old(self)@.config,
                            old(self)@.held,
                            key,
                            true,
                        ));
                    }
                    return r;
                }
                i += 1;
            }
            proof {
                lemma_first_combo_prefix(combos, held, combos.len() as int);
                assert(combos.skip(combos.len() as int) =~= Seq::<ComboModel>::empty());
                assert(first_combo(combos, held) is None);
            }
            let mut m: usize = 0;
            while m < self.config.mapping.len()
                invariant
                    self.wf(),
                    self@.held == held,
                    held == old(self)@.held.push(key),
                    self@.pressed == old(self)@.pressed + 1,
                    self@.cache == old(self)@.cache,
                    self@.batch == old(self)@.batch,
                    self@.config == old(self)@.config,
                    mappings == old(self)@.config.mapping,
                    first_combo(old(self)@.config.combo, held) is None,
                    0 <= m <= mappings.len(),
                    forall|j: int| 0 <= j < m ==> mappings[j].from != key,
                    r@.len() == 0,
                decreases mappings.len() - m,
            {
                let mp = &self.config.mapping[m];
                if mp.from == key {
                    proof {
                        assert(mappings[m as int] == self.config.mapping@[m as int]@);
                        lemma_first_mapping_prefix(mappings, key, m as int);
                        assert(mappings.skip(m as int)[0] == mappings[m as int]);
                        assert(first_mapping(mappings, key) == Some(mappings[m as int]));
                    }
                    let evs = down_vec(&mp.to);
                    r.push(Action::Emit(evs));
                    proof {
                        assert(action_views(r@) =~= key_actions(
                            old(self)@.config,
                            old(self)@.held,
                            key,
                            true,
                        ));
                    }
                    return r;
                }
                m += 1;
            }
            proof {
                lemma_first_mapping_prefix(mappings, key, mappings.len() as int);
                assert(mappings.skip(mappings.len() as int) =~= Seq::<MappingModel>::empty());
                assert(first_mapping(mappings, key) is None);
                assert(action_views(r@) =~= key_actions(
                    old(self)@.config,
                    old(self)@.held,
                    key,
                    true,
                ));
            }
            r
        } else {
            let ghost mappings = old(self)@.config.mapping;
            proof {
                assert(action_views(r@) =~= Seq::<ActionModel>::empty());
                assert(mappings.skip(0) =~= mappings);
                assert(Seq::<ActionModel>::empty() + key_up_actions(mappings, key)
                    =~= key_up_actions(mappings, key));
            }
            let mut m: usize = 0;
            while m < self.config.mapping.len()
                invariant
                    self == old(self),
                    mappings == old(self)@.config.mapping,
                    0 <= m <= mappings.len(),
                    action_views(r@) + key_up_actions(mappings.skip(m as int), key)
                        == key_up_actions(mappings, key),
                decreases mappings.len() - m,
            {
                let ghost r_pre = r@;
                let mp = &self.config.mapping[m];
                if mp.from == key {
                    let evs = up_vec(&mp.to);
                    r.push(Action::Emit(evs));
                }
                proof {
                    assert(mappings[m as int] == self.config.mapping@[m as int]@);
                    assert(mappings.skip(m as int)[0] == mappings[m as int]);
                    assert(mappings.skip(m as int).drop_first() =~= mappings.skip(m as int + 1));
                    if mappings[m as int].from == key {
                        assert(action_views(r@) =~= action_views(r_pre).push(
                            ActionModel::Emit(up_events(mappings[m as int].to)),
                        ));
                        assert(action_views(r@) + key_up_actions(
                            mappings.skip(m as int + 1),
                            key,
                        ) =~= action_views(r_pre) + key_up_actions(mappings.skip(m as int), key));
                    } else {
                        assert(key_up_actions(mappings.skip(m as int), key) == key_up_actions(
                            mappings.skip(m as int + 1),
                            key,
                        ));
                    }
                }
                m += 1;
            }
            proof {
                assert(mappings.skip(mappings.len() as int) =~= Seq::<MappingModel>::empty());
                assert(key_up_actions(Seq::<MappingModel>::empty(), key)
                    == Seq::<ActionModel>::empty());
                assert(action_views(r@) + Seq::<ActionModel>::empty() =~= action_views(r@));
                assert(action_views(r@) == key_up_actions(mappings, key));
            }
            let ghost held = old(self)@.held;
            let ghost i0 = choose|j: int| 0 <= j < held.len() && held[j] == key;
            let mut idx: usize = 0;
            while self.key_combo[idx] != key
                invariant
                    self == old(self),
                    held == self.key_combo@,
                    0 <= idx <= i0 < held.len(),
                    held[i0] == key,
                    forall|j: int| 0 <= j < idx ==> held[j] != key,
                decreases held.len() - idx,
            {
                idx += 1;
                proof {
                    if idx > i0 {
                        assert(held[i0] == key);
                        assert(false);
                    }
                }
            }
            self.key_combo.remove(idx);
            self.pressed_keys = self.key_combo.len();
            proof {
                held.index_of_first_ensures(key);
                assert(held.index_of_first(key) is Some);
                let fi = held.index_of_first(key)->Some_0;
                assert(held[fi] == key);
                assert(fi == idx as int);
                assert(self@.held == remove_first(held, key));
            }
            r
        }
    }

    /// The number of events pending in the current synchronization batch.
    pub fn batch_len(&self) -> (r: usize)
        ensures
            r == self@.batch.len(),
    {
        self.batch.len()
    }

    /// Jitter-filtered differencing of one absolute sample against the
    /// remembered one for `axis`, under the exact rational scale `num / den`.
    /// A sample of zero, or a remembered zero, means "at rest or first
    /// sample": nothing is emitted and the sample is recorded. A delta that
    /// rounds to zero is suppressed without touching the history, so
    /// sub-threshold movements accumulate; otherwise the delta is returned
    /// and the history reset to the newest sample.
    pub fn abs_to_rel(&mut self, axis: Axis, value: i32, num: i32, den: i32) -> (r: Option<i32>)
        requires
            old(self).wf(),
            den > 0,
            -0x7fff_ffff <= scaled_delta(
                old(self)@.cache[axis_index_spec(axis)] as int,
                value as int,
                num as int,
                den as int,
            ) <= 0x7fff_ffff,
        ensures
            final(self).wf(),
            final(self)@.held == old(self)@.held,
            final(self)@.pressed == old(self)@.pressed,
            final(self)@.batch == old(self)@.batch,
            final(self)@.config == old(self)@.config,
            ({
                let idx = axis_index_spec(axis);
                let st = axis_step(
                    old(self)@.cache[idx] as int,
                    value as int,
                    num as int,
                    den as int,
                );
                &&& (st.0 is None <==> r is None)
                &&& (st.0 matches Some(d) ==> r == Some(d as i32) && d == d as i32 as int)
                &&& final(self)@.cache.len() == old(self)@.cache.len()
                &&& final(self)@.cache[idx] as int == st.1
                &&& forall|j: int|
                    0 <= j < old(self)@.cache.len() && j != idx ==> final(self)@.cache[j] == old(
                        self,
                    )@.cache[j]
            }),
    {
        let idx = axis.index();
        let prev = self.cache[idx];
        if value == 0 || prev == 0 {
            self.cache.set(idx, value);
            return None;
        }
        let delta = compute_delta(prev, value, num, den);
        if delta == 0 {
            return None;
        }
        self.cache.set(idx, value);
        Some(delta)
    }

    /// One absolute-axis sample. The four trackpad surfaces produce
    /// jitter-filtered relative motion under their per-direction scales;
    /// joysticks, triggers and unknown axes pass through with no output.
    pub fn handle_abs_axis_event(&mut self, axis_code: u16, value: i32) -> (r: Option<OutEvent>)
        requires
            old(self).wf(),
        ensures
            final(self).wf(),
            final(self)@.held == old(self)@.held,
            final(self)@.pressed == old(self)@.pressed,
            final(self)@.batch == old(self)@.batch,
            final(self)@.config == old(self)@.config,
            r == axis_event_out(old(self)@.cache, axis_code, value),
            final(self)@.cache == axis_event_cache(old(self)@.cache, axis_code, value),
    {
        let axis = Axis::from_code(axis_code);
        match axis {
            Axis::LeftTrackpadX => {
                proof {
                    lemma_trackpad_delta_fits(self@.cache[axis_index_spec(axis)], value, 1);
                }
                let d = self.abs_to_rel(axis, value, 1, 10000);
                proof {
                    assert(self@.cache =~= axis_event_cache(old(self)@.cache, axis_code, value));
                }
                match d {
                    Some(delta) => Some(OutEvent::Rel(RelAxis::HWheel, delta)),
                    None => None,
                }
            },
            Axis::LeftTrackpadY => {
                proof {
                    lemma_trackpad_delta_fits(self@.cache[axis_index_spec(axis)], value, 1);
                }
                let d = self.abs_to_rel(axis, value, 1, 10000);
                proof {
                    assert(self@.cache =~= axis_event_cache(old(self)@.cache, axis_code, value));
                }
                match d {
                    Some(delta) => Some(OutEvent::Rel(RelAxis::Wheel, delta)),
                    None => None,
                }
            },
            Axis::RightTrackpadX => {
                proof {
                    lemma_trackpad_delta_fits(self@.cache[axis_index_spec(axis)], value, 50);
                }
                let d = self.abs_to_rel(axis, value, 50, 10000);
                proof {
                    assert(self@.cache =~= axis_event_cache(old(self)@.cache, axis_code, value));
                }
                match d {
                    Some(delta) => Some(OutEvent::Rel(RelAxis::X, delta)),
                    None => None,
                }
            },
            Axis::RightTrackpadY => {
                proof {
                    lemma_trackpad_delta_fits(self@.cache[axis_index_spec(axis)], value, -50);
                }
                let d = self.abs_to_rel(axis, value, -50, 10000);
                proof {
                    assert(self@.cache =~= axis_event_cache(old(self)@.cache, axis_code, value));
                }
                match d {
                    Some(delta) => Some(OutEvent::Rel(RelAxis::Y, delta)),
                    None => None,
                }
            },
            _ => None,
        }
    }

    /// One raw input event. Axis samples accumulate their relative output in
    /// the per-synchronization batch; key transitions act immediately through
    /// the returned actions; a synchronization marker flushes the batch,
    /// empty or not, as one atomic emission; anything else is ignored. A
    /// button release must be for a key currently held.
    pub fn step(&mut self, ev: RawEvent) -> (r: Vec<Action>)
        requires
            old(self).wf(),
            ev matches RawEvent::Key(code, v) ==> (v != 1 ==> old(self)@.held.contains(
                key_of_code(code),
            )),
        ensures
            final(self).wf(),
            final(self)@.config == old(self)@.config,
            match ev {
                RawEvent::AbsAxis(code, value) => {
                    &&& r@.len() == 0
                    &&& final(self)@.cache == axis_event_cache(old(self)@.cache, code, value)
                    &&& final(self)@.batch == (match axis_event_out(
                        old(self)@.cache,
                        code,
                        value,
                    ) {
                        None => old(self)@.batch,
                        Some(e) => old(self)@.batch.push(e),
                    })
                    &&& final(self)@.held == old(self)@.held
                    &&& final(self)@.pressed == old(self)@.pressed
                },
                RawEvent::Key(code, v) => {
                    &&& final(self)@.held == held_after_key(
                        old(self)@.held,
                        key_of_code(code),
                        v == 1,
                    )
                    &&& action_views(r@) == key_actions(
                        old(self)@.config,
                        old(self)@.held,
                        key_of_code(code),
                        v == 1,
                    )
                    &&& final(self)@.cache == old(self)@.cache
                    &&& final(self)@.batch == old(self)@.batch
                },
                RawEvent::Sync => {
                    &&& r@.len() == 1
                    &&& r@[0]@ == ActionModel::Emit(old(self)@.batch)
                    &&& final(self)@.batch == Seq::<OutEvent>::empty()
                    &&& final(self)@.cache == old(self)@.cache
                    &&& final(self)@.held == old(self)@.held
                    &&& final(self)@.pressed == old(self)@.pressed
                },
                RawEvent::Other => {
                    &&& r@.len() == 0
                    &&& final(self)@ == old(self)@
                },
            },
    {
        match ev {
            RawEvent::AbsAxis(code, value) => {
                let out = self.handle_abs_axis_event(code, value);
                if let Some(e) = out {
                    self.batch.push(e);
                }
                Vec::new()
            },
            RawEvent::Key(code, v) => {
                let key = SteamDeckKey::from_code(code);
                self.handle_key_event(key, v == 1)
            },
            RawEvent::Sync => {
                let mut flushed: Vec<OutEvent> = Vec::new();
                core::mem::swap(&mut flushed, &mut self.batch);
                let mut r: Vec<Action> = Vec::new();
                r.push(Action::Emit(flushed));
                r
            },
            RawEvent::Other => Vec::new(),
        }
    }
}

/// Under the trackpad scales, whose numerators stay within 50 in magnitude
/// and whose denominator is 10000, no rounded delta can leave the i32 range.
proof fn lemma_trackpad_delta_fits(prev: i32, value: i32, num: int)
    requires
        -50 <= num <= 50,
    ensures
        -0x7fff_ffff <= scaled_delta(prev as int, value as int, num, 10000) <= 0x7fff_ffff,
{
    assert(-214748364800 <= (value as int - prev as int) * num <= 214748364800)
        by (nonlinear_arith)
        requires
            -50 <= num <= 50,
            -0x1_0000_0000 <= value as int - prev as int <= 0x1_0000_0000,
    ;
    lemma_scaled_delta_bound(prev as int, value as int, num, 10000, 214748364800);
    assert((214748364800int + 10000int / 2) / 10000int == 21474836);
}

} // verus!
