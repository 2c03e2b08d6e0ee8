//! Standard five-field cron expressions: `minute hour day-of-month month day-of-week`.
//!
//! Each field is a comma list of `*`, `*/step`, `a`, `a-b`, `a-b/step` or `a/step`.
//! Day of week runs 0-7 with both 0 and 7 meaning Sunday. When day of month and day
//! of week are both restricted, a time matches if either does (Vixie cron).

use vstd::prelude::*;
use vstd::arithmetic::div_mod::{
    lemma_fundamental_div_mod,
    lemma_mod_add_multiples_vanish,
    lemma_mod_multiples_vanish,
    lemma_small_mod,
};

use crate::text::{
    chars_of, eq_chars, lemma_first_index_of, parse_nat, parse_u32, slice_chars, split_once,
    split_once_char, split_whitespace, split_ws,
};

verus! {

// ---------------------------------------------------------------------------
// Bit masks
// ---------------------------------------------------------------------------

/// Whether bit `n` of `m` is set.
pub open spec fn mask_has(m: u64, n: nat) -> bool {
    n < 64 && m & (1u64 << (n as u64)) != 0
}

/// The set of bit positions set in `m`.
pub open spec fn mask_set(m: u64) -> Set<nat> {
    Set::new(|n: nat| mask_has(m, n))
}

proof fn lemma_bit_or(m: u64, v: u64, n: u64)
    requires
        v < 64,
        n < 64,
    ensures
        ((m | (1u64 << v)) & (1u64 << n) != 0) == ((m & (1u64 << n) != 0) || n == v),
{
    assert(((m | (1u64 << v)) & (1u64 << n) != 0) == ((m & (1u64 << n) != 0) || n == v))
        by (bit_vector)
        requires
            v < 64,
            n < 64,
    ;
}

proof fn lemma_bit_clear(m: u64, v: u64, n: u64)
    requires
        v < 64,
        n < 64,
    ensures
        ((m & !(1u64 << v)) & (1u64 << n) != 0) == ((m & (1u64 << n) != 0) && n != v),
{
    assert(((m & !(1u64 << v)) & (1u64 << n) != 0) == ((m & (1u64 << n) != 0) && n != v))
        by (bit_vector)
        requires
            v < 64,
            n < 64,
    ;
}

proof fn lemma_zero_mask(n: u64)
    requires
        n < 64,
    ensures
        0u64 & (1u64 << n) == 0,
{
    assert(0u64 & (1u64 << n) == 0) by (bit_vector);
}

/// Whether bit `n` of `mask` is set (`false` for positions past 63).
pub fn bit(mask: u64, n: u32) -> (r: bool)
    ensures
        r == mask_has(mask, n as nat),
{
    n < 64 && mask & (1u64 << (n as u64)) != 0
}

/// `m` with bit `v` set.
fn set_bit(m: u64, v: u64) -> (r: u64)
    requires
        v < 64,
    ensures
        forall|n: nat| #[trigger] mask_has(r, n) == (mask_has(m, n) || n == v),
{
    let r = m | (1u64 << v);
    proof {
        assert forall|n: nat| #[trigger] mask_has(r, n) == (mask_has(m, n) || n == v) by {
            if n < 64 {
                lemma_bit_or(m, v, n as u64);
            }
        }
    }
    r
}

// ---------------------------------------------------------------------------
// Field syntax
// ---------------------------------------------------------------------------

/// The comma-separated items of `s` (`str::split(',')`, empty items included).
pub open spec fn comma_parts(s: Seq<char>) -> Seq<Seq<char>>
    decreases s.len(),
{
    match split_once(s, ',') {
        Some(p) => {
            proof {
                lemma_first_index_of(s, ',');
            }
            seq![p.0] + comma_parts(p.1)
        },
        None => seq![s],
    }
}

/// The value of `s` as a `u32` number, if it is one.
pub open spec fn u32_value(s: Seq<char>) -> Option<nat> {
    match parse_nat(s) {
        Some(v) => if v <= u32::MAX {
            Some(v)
        } else {
            None
        },
        None => None,
    }
}

/// The step of an item: `Some(None)` without `/`, `Some(Some(k))` for a valid step `k > 0`,
/// `None` when the step is not a positive number.
pub open spec fn item_step(item: Seq<char>) -> Option<Option<nat>> {
    match split_once(item, '/') {
        Some(p) => match u32_value(p.1) {
            Some(k) => if k > 0 {
                Some(Some(k))
            } else {
                None
            },
            None => None,
        },
        None => Some(None),
    }
}

/// The range part of an item (before any `/`).
pub open spec fn item_range_text(item: Seq<char>) -> Seq<char> {
    match split_once(item, '/') {
        Some(p) => p.0,
        None => item,
    }
}

/// The bounds a range text denotes, before they are checked against the field's limits.
pub open spec fn range_bounds(range: Seq<char>, stepped: bool, min: nat, max: nat) -> Option<
    (nat, nat),
> {
    if range == seq!['*'] {
        Some((min, max))
    } else {
        match split_once(range, '-') {
            Some(p) => match (u32_value(p.0), u32_value(p.1)) {
                (Some(a), Some(b)) => Some((a, b)),
                _ => None,
            },
            None => match u32_value(range) {
                Some(v) => if stepped {
                    Some((v, max))
                } else {
                    Some((v, v))
                },
                None => None,
            },
        }
    }
}

/// `(low, high, step)` of one comma item, or `None` when it is invalid or out of limits.
pub open spec fn item_spec(item: Seq<char>, min: nat, max: nat) -> Option<(nat, nat, nat)> {
    match item_step(item) {
        None => None,
        Some(st) => match range_bounds(item_range_text(item), st is Some, min, max) {
            None => None,
            Some(b) => if b.0 < min || b.1 > max || b.0 > b.1 {
                None
            } else {
                Some(
                    (
                        b.0,
                        b.1,
                        match st {
                            Some(k) => k,
                            None => 1,
                        },
                    ),
                )
            },
        },
    }
}

/// Whether `x` is among `lo, lo + step, ...` up to `hi`.
pub open spec fn in_steps(x: nat, lo: nat, hi: nat, step: nat) -> bool {
    lo <= x <= hi && (x - lo) % (step as int) == 0
}

/// The values a list of items selects, or `None` if an item is invalid.
pub open spec fn items_values(items: Seq<Seq<char>>, min: nat, max: nat) -> Option<Set<nat>>
    decreases items.len(),
{
    if items.len() == 0 {
        Some(Set::empty())
    } else {
        match (items_values(items.drop_last(), min, max), item_spec(items.last(), min, max)) {
            (Some(s), Some(r)) => Some(s.union(Set::new(|x: nat| in_steps(x, r.0, r.1, r.2)))),
            _ => None,
        }
    }
}

/// The values a field selects and whether it is restricted (anything but `*`).
pub open spec fn field_spec(f: Seq<char>, min: nat, max: nat) -> Option<(Set<nat>, bool)> {
    if f.len() == 0 {
        None
    } else {
        match items_values(comma_parts(f), min, max) {
            Some(s) => Some((s, f != seq!['*'])),
            None => None,
        }
    }
}

/// Splits `s` on every `c`, like `str::split`.
fn split_char(s: &[char], c: char) -> (r: Vec<Vec<char>>)
    requires
        c == ',',
    ensures
        r@.len() == comma_parts(s@).len(),
        forall|k: int| 0 <= k < r@.len() ==> #[trigger] r@[k]@ == comma_parts(s@)[k],
{
    let mut r: Vec<Vec<char>> = Vec::new();
    let mut rest: Vec<char> = slice_chars(s, 0, s.len());
    assert(s@.subrange(0, s@.len() as int) =~= s@);
    let ghost acc: Seq<Seq<char>> = seq![];
    loop
        invariant
            c == ',',
            r@.len() == acc.len(),
            forall|k: int| 0 <= k < r@.len() ==> #[trigger] r@[k]@ == acc[k],
            comma_parts(s@) == acc + comma_parts(rest@),
        decreases rest@.len(),
    {
        match split_once_char(&rest, c) {
            Some(p) => {
                proof {
                    lemma_first_index_of(rest@, ',');
                    assert(comma_parts(rest@) == seq![p.0@] + comma_parts(p.1@));
                    assert(acc.push(p.0@) + comma_parts(p.1@) =~= acc + (seq![p.0@]
                        + comma_parts(p.1@)));
                    acc = acc.push(p.0@);
                }
                r.push(p.0);
                rest = p.1;
            },
            None => {
                proof {
                    assert(comma_parts(rest@) == seq![rest@]);
                    assert(acc + seq![rest@] =~= acc.push(rest@));
                    acc = acc.push(rest@);
                }
                r.push(rest);
                return r;
            },
        }
    }
}

proof fn lemma_step_gap(lo: nat, v: nat, step: nat, n: nat)
    requires
        0 < step,
        lo <= v,
        (v - lo) % (step as int) == 0,
        v < n < v + step,
    ensures
        (n - lo) % (step as int) != 0,
{
    let q = (v - lo) / (step as int);
    lemma_fundamental_div_mod(v - lo, step as int);
    assert(n - lo == step * q + (n - v));
    lemma_mod_multiples_vanish(q, n - v, step as int);
    lemma_small_mod((n - v) as nat, step);
}

proof fn lemma_step_next(lo: nat, v: nat, step: nat)
    requires
        0 < step,
        lo <= v,
        (v - lo) % (step as int) == 0,
    ensures
        (v + step - lo) % (step as int) == 0,
{
    lemma_mod_add_multiples_vanish(v - lo, step as int);
    assert(v + step - lo == step + (v - lo));
}

proof fn lemma_items_none_prefix(items: Seq<Seq<char>>, k: int, min: nat, max: nat)
    requires
        0 <= k <= items.len(),
        items_values(items.subrange(0, k), min, max) is None,
    ensures
        items_values(items, min, max) is None,
    decreases items.len() - k,
{
    if k < items.len() {
        let a = items.subrange(0, k + 1);
        assert(a.drop_last() =~= items.subrange(0, k));
        lemma_items_none_prefix(items, k + 1, min, max);
    } else {
        assert(items.subrange(0, k) =~= items);
    }
}

/// Bounds of one item, or `None` when it is invalid (mirrors `item_spec`).
fn item_bounds(item: &[char], min: u32, max: u32) -> (r: Option<(u64, u64, u64)>)
    requires
        min <= max < 64,
    ensures
        match r {
            Some(b) => item_spec(item@, min as nat, max as nat) == Some(
                (b.0 as nat, b.1 as nat, b.2 as nat),
            ) && b.0 <= b.1 <= max && 0 < b.2 <= u32::MAX,
            None => item_spec(item@, min as nat, max as nat) is None,
        },
{
    let (range, step): (Vec<char>, Option<u64>) = match split_once_char(item, '/') {
        Some(p) => {
            match parse_u32(&p.1) {
                Some(k) => {
                    if k == 0 {
                        return None;
                    }
                    (p.0, Some(k as u64))
                },
                None => {
                    return None;
                },
            }
        },
        None => (slice_chars(item, 0, item.len()), None),
    };
    assert(item@.subrange(0, item@.len() as int) =~= item@);
    assert(range@ == item_range_text(item@));
    let star = eq_chars(&range, &['*']);
    assert(seq!['*'] =~= ['*']@);
    let (lo, hi): (u64, u64) = if star {
        (min as u64, max as u64)
    } else {
        match split_once_char(&range, '-') {
            Some(p) => {
                let a = parse_u32(&p.0);
                let b = parse_u32(&p.1);
                match (a, b) {
                    (Some(a), Some(b)) => (a as u64, b as u64),
                    _ => {
                        return None;
                    },
                }
            },
            None => match parse_u32(&range) {
                Some(v) => {
                    if step.is_some() {
                        (v as u64, max as u64)
                    } else {
                        (v as u64, v as u64)
                    }
                },
                None => {
                    return None;
                },
            },
        }
    };
    if lo < min as u64 || hi > max as u64 || lo > hi {
        return None;
    }
    let st = match step {
        Some(k) => k,
        None => 1,
    };
    Some((lo, hi, st))
}

/// Parses one field into a bit mask of the values it selects and whether it is
/// restricted (not `*`); `None` on any syntax or range error.
fn parse_field(spec: &[char], min: u32, max: u32) -> (r: Option<(u64, bool)>)
    requires
        min <= max < 64,
    ensures
        match r {
            Some(p) => field_spec(spec@, min as nat, max as nat) == Some(
                (mask_set(p.0), p.1),
            ),
            None => field_spec(spec@, min as nat, max as nat) is None,
        },
{
    if spec.len() == 0 {
        return None;
    }
    let restricted = !eq_chars(spec, &['*']);
    assert(seq!['*'] =~= ['*']@);
    let parts = split_char(spec, ',');
    let ghost items = comma_parts(spec@);
    let mut mask: u64 = 0;
    proof {
        assert forall|n: nat| #[trigger] mask_has(mask, n) == Set::<nat>::empty().contains(n) by {
            if n < 64 {
                lemma_zero_mask(n as u64);
            }
        }
        assert(items.subrange(0, 0) =~= Seq::<Seq<char>>::empty());
    }
    let mut k: usize = 0;
    while k < parts.len()
        invariant
            min <= max < 64,
            items == comma_parts(spec@),
            parts@.len() == items.len(),
            forall|j: int| 0 <= j < parts@.len() ==> #[trigger] parts@[j]@ == items[j],
            k <= parts@.len(),
            items_values(items.subrange(0, k as int), min as nat, max as nat) is Some,
            forall|n: nat| #[trigger]
                mask_has(mask, n) == items_values(
                    items.subrange(0, k as int),
                    min as nat,
                    max as nat,
                ).unwrap().contains(n),
        decreases parts@.len() - k,
    {
        let ghost prefix = items.subrange(0, k + 1);
        assert(prefix.drop_last() =~= items.subrange(0, k as int));
        assert(prefix.last() == parts@[k as int]@);
        let b = item_bounds(&parts[k], min, max);
        match b {
            None => {
                proof {
                    lemma_items_none_prefix(items, k + 1, min as nat, max as nat);
                }
                return None;
            },
            Some(b) => {
                let (lo, hi, step) = b;
                let ghost before = mask;
                let mut v: u64 = lo;
                let ghost mut prev: u64 = lo;
                assert((v - lo) % (step as int) == 0) by {
                    assert(v - lo == 0);
                }
                while v <= hi
                    invariant
                        lo <= hi,
                        hi < 64,
                        0 < step <= u32::MAX,
                        lo <= v,
                        v <= hi + step,
                        (v - lo) % (step as int) == 0,
                        v == lo || (prev + step == v && lo <= prev <= hi && (prev - lo) % (
                        step as int) == 0),
                        forall|n: nat| #[trigger]
                            mask_has(mask, n) == (mask_has(before, n) || (lo <= n < v && (n - lo)
                                % (step as int) == 0)),
                    decreases hi + step - v,
                {
                    let old_mask = mask;
                    mask = set_bit(mask, v);
                    proof {
                        assert forall|n: nat| #[trigger]
                            mask_has(mask, n) == (mask_has(before, n) || (lo <= n < v + step && (n
                                - lo) % (step as int) == 0)) by {
                            assert(mask_has(mask, n) == (mask_has(old_mask, n) || n == v));
                            if v < n < v + step {
                                lemma_step_gap(lo as nat, v as nat, step as nat, n);
                            }
                        }
                        lemma_step_next(lo as nat, v as nat, step as nat);
                        prev = v;
                    }
                    v = v + step;
                }
                proof {
                    assert forall|n: nat| #[trigger]
                        mask_has(mask, n) == items_values(
                            items.subrange(0, k + 1),
                            min as nat,
                            max as nat,
                        ).unwrap().contains(n) by {
                        if lo <= n < v && (n - lo) % (step as int) == 0 && n > hi {
                            lemma_step_gap(lo as nat, prev as nat, step as nat, n);
                        }
                    }
                }
                k = k + 1;
            },
        }
    }
    proof {
        assert(items.subrange(0, items.len() as int) =~= items);
        assert(mask_set(mask) =~= items_values(items, min as nat, max as nat).unwrap());
    }
    Some((mask, restricted))
}

// ---------------------------------------------------------------------------
// Whole expressions
// ---------------------------------------------------------------------------

/// What a parsed expression selects.
pub struct CronSpec {
    pub minutes: Set<nat>,
    pub hours: Set<nat>,
    pub doms: Set<nat>,
    pub months: Set<nat>,
    /// Days of week, Sunday = 0 (a `7` in the text counts as `0`).
    pub dows: Set<nat>,
    pub dom_restricted: bool,
    pub dow_restricted: bool,
}

/// Day-of-week values with Sunday written as 7 folded onto 0.
pub open spec fn fold_sunday(s: Set<nat>) -> Set<nat> {
    if s.contains(7) {
        s.remove(7).insert(0)
    } else {
        s
    }
}

/// The meaning of a cron expression, or `None` if it is not a valid five-field expression.
pub open spec fn cron_spec(expr: Seq<char>) -> Option<CronSpec> {
    let f = split_ws(expr);
    if f.len() != 5 {
        None
    } else {
        match (
            field_spec(f[0], 0, 59),
            field_spec(f[1], 0, 23),
            field_spec(f[2], 1, 31),
            field_spec(f[3], 1, 12),
            field_spec(f[4], 0, 7),
        ) {
            (Some(mi), Some(h), Some(d), Some(mo), Some(w)) => Some(
                CronSpec {
                    minutes: mi.0,
                    hours: h.0,
                    doms: d.0,
                    months: mo.0,
                    dows: fold_sunday(w.0),
                    dom_restricted: d.1,
                    dow_restricted: w.1,
                },
            ),
            _ => None,
        }
    }
}

/// Wall-clock fields of an instant: minute, hour, day of month, month and day of week
/// (Sunday = 0).
#[derive(Clone, Copy, Debug, PartialEq, Eq, Structural)]
pub struct WallClock {
    pub minute: u32,
    pub hour: u32,
    pub day: u32,
    pub month: u32,
    pub weekday: u32,
}

/// Whether the wall-clock time `w` is selected by `c`.
pub open spec fn spec_matches(c: CronSpec, w: WallClock) -> bool {
    let time_hit = c.minutes.contains(w.minute as nat) && c.hours.contains(w.hour as nat)
        && c.months.contains(w.month as nat);
    let dom_hit = c.doms.contains(w.day as nat);
    let dow_hit = c.dows.contains(w.weekday as nat);
    time_hit && if c.dom_restricted && c.dow_restricted {
        dom_hit || dow_hit
    } else {
        dom_hit && dow_hit
    }
}

/// A parsed cron expression: one bit mask per field plus whether day of month and day
/// of week are restricted.
pub struct CronExpr {
    pub minutes: u64,
    pub hours: u64,
    pub doms: u64,
    pub months: u64,
    pub dows: u64,
    pub dom_restricted: bool,
    pub dow_restricted: bool,
}

impl CronExpr {
    /// The selection this expression stands for.
    pub open spec fn model(&self) -> CronSpec {
        CronSpec {
            minutes: mask_set(self.minutes),
            hours: mask_set(self.hours),
            doms: mask_set(self.doms),
            months: mask_set(self.months),
            dows: mask_set(self.dows),
            dom_restricted: self.dom_restricted,
            dow_restricted: self.dow_restricted,
        }
    }

    /// Parses a five-field expression; `None` when a field is malformed or out of range
    /// or the field count is not five.
    pub fn parse(expr: &str) -> (r: Option<Self>)
        ensures
            match r {
                Some(e) => cron_spec(expr@) == Some(e.model()),
                None => cron_spec(expr@) is None,
            },
    {
        let cs = chars_of(expr);
        let fields = split_whitespace(&cs);
        if fields.len() != 5 {
            return None;
        }
        let mi = parse_field(&fields[0], 0, 59);
        let h = parse_field(&fields[1], 0, 23);
        let d = parse_field(&fields[2], 1, 31);
        let mo = parse_field(&fields[3], 1, 12);
        let w = parse_field(&fields[4], 0, 7);
        match (mi, h, d, mo, w) {
            (Some(mi), Some(h), Some(d), Some(mo), Some(w)) => {
                let mut dows = w.0;
                if dows & (1u64 << 7u64) != 0 {
                    proof {
                        assert(mask_has(dows, 7));
                    }
                    let a = set_bit(dows, 0);
                    let b = a & !(1u64 << 7u64);
                    proof {
                        assert forall|n: nat| #[trigger] mask_has(b, n) == (mask_has(a, n) && n
                            != 7) by {
                            if n < 64 {
                                lemma_bit_clear(a, 7, n as u64);
                            }
                        }
                        assert(mask_set(b) =~= fold_sunday(mask_set(w.0)));
                    }
                    dows = b;
                } else {
                    proof {
                        assert(!mask_has(dows, 7));
                        assert(mask_set(dows) =~= fold_sunday(mask_set(w.0)));
                    }
                }
                let e = CronExpr {
                    minutes: mi.0,
                    hours: h.0,
                    doms: d.0,
                    months: mo.0,
                    dows,
                    dom_restricted: d.1,
                    dow_restricted: w.1,
                };
                proof {
                    assert(e.model().dows == fold_sunday(mask_set(w.0)));
                }
                Some(e)
            },
            _ => None,
        }
    }

    /// Whether the wall-clock time `w` matches.
    pub fn matches(&self, w: &WallClock) -> (r: bool)
        ensures
            r == spec_matches(self.model(), *w),
    {
        let time_hit = bit(self.minutes, w.minute) && bit(self.hours, w.hour) && bit(
            self.months,
            w.month,
        );
        if !time_hit {
            return false;
        }
        let dom_hit = bit(self.doms, w.day);
        let dow_hit = bit(self.dows, w.weekday);
        if self.dom_restricted && self.dow_restricted {
            dom_hit || dow_hit
        } else {
            dom_hit && dow_hit
        }
    }
}

} // verus!

verus! {

/// A `*` field selects every value from `min` to `max` and is unrestricted.
proof fn lemma_star_field(min: nat, max: nat)
    requires
        min <= max,
    ensures
        field_spec(seq!['*'], min, max) matches Some((s, restricted)) && !restricted
            && forall|x: nat| min <= x <= max ==> #[trigger] s.contains(x),
{
    let star = seq!['*'];
    assert(star.drop_first() =~= Seq::<char>::empty());
    assert(star[0] == '*');
    assert(crate::text::first_index_of(Seq::<char>::empty(), ',') is None);
    assert(crate::text::first_index_of(Seq::<char>::empty(), '/') is None);
    assert(crate::text::first_index_of(star, ',') is None);
    assert(crate::text::first_index_of(star, '/') is None);
    assert(comma_parts(star) == seq![star]);
    assert(seq![star].drop_last() =~= Seq::<Seq<char>>::empty());
    assert(item_spec(star, min, max) == Some((min, max, 1nat)));
    assert(items_values(Seq::<Seq<char>>::empty(), min, max) == Some(Set::<nat>::empty()));
    assert(seq![star].last() == star);
    let s = Set::<nat>::empty().union(Set::new(|x: nat| in_steps(x, min, max, 1)));
    assert(items_values(seq![star], min, max) == Some(s));
    assert forall|x: nat| min <= x <= max implies #[trigger] s.contains(x) by {
        assert(in_steps(x, min, max, 1));
    }
}

/// The day fields of a cron expression: when both day of month and day of week are
/// given, a day is selected if either one selects it; when only one is given, that
/// one decides; when neither is, every day is selected. In the day-of-week field `7`
/// stands for Sunday as `0` does.
pub proof fn law_day_fields_combine(expr: Seq<char>, w: WallClock)
    requires
        cron_spec(expr) is Some,
        1 <= w.day <= 31,
        w.weekday <= 6,
    ensures
        ({
            let f = split_ws(expr);
            let c = cron_spec(expr).unwrap();
            let time_hit = c.minutes.contains(w.minute as nat) && c.hours.contains(w.hour as nat)
                && c.months.contains(w.month as nat);
            let dom_hit = field_spec(f[2], 1, 31).unwrap().0.contains(w.day as nat);
            let listed = field_spec(f[4], 0, 7).unwrap().0;
            let dow_hit = listed.contains(w.weekday as nat) || (w.weekday == 0 && listed.contains(7));
            spec_matches(c, w) == (time_hit && if f[2] != seq!['*'] && f[4] != seq!['*'] {
                dom_hit || dow_hit
            } else if f[2] != seq!['*'] {
                dom_hit
            } else if f[4] != seq!['*'] {
                dow_hit
            } else {
                true
            })
        }),
{
    let f = split_ws(expr);
    let c = cron_spec(expr).unwrap();
    let listed = field_spec(f[4], 0, 7).unwrap().0;
    assert(c.dows.contains(w.weekday as nat) == (listed.contains(w.weekday as nat)
        || (w.weekday == 0 && listed.contains(7))));
    if f[2] == seq!['*'] {
        lemma_star_field(1, 31);
    }
    if f[4] == seq!['*'] {
        lemma_star_field(0, 7);
    }
}

} // verus!
