//! UNIX-cron expressions with an optional seconds field.
//!
//! Five fields are minute, hour, day of month, month and day of week (0-7, both
//! 0 and 7 are Sunday). Six fields add a leading seconds field. Each field holds
//! `*`, values, ranges (`a-b`) and steps (`a-b/n`, `*/n`), joined by commas.
//! Names of months and days are not supported.

use vstd::prelude::*;
use crate::calendar::{civil_from_days, floor_div, floor_rem};
use crate::text::{cat, debug_text, decimal_text, parse_unsigned, same, split_char, split_once_char, split_words, trim};

verus! {

broadcast use vstd::set::group_set_axioms;

// ---- fields ------------------------------------------------------------------

/// Whether a bitset holds the value `v`.
pub open spec fn holds(mask: u64, v: int) -> bool {
    0 <= v < 64 && (mask >> (v as u64)) & 1 == 1
}

/// The values that a bitset holds.
pub open spec fn bits(mask: u64) -> Set<int> {
    Set::new(|v: int| holds(mask, v))
}

/// The values `lo..=hi`.
pub open spec fn range(lo: int, hi: int) -> Set<int> {
    Set::new(|v: int| lo <= v <= hi)
}

/// The values `start`, `start + step`, ... up to `end`.
pub open spec fn stepped(start: int, end: int, step: int) -> Set<int> {
    Set::new(|v: int| start <= v <= end && (v - start) % step == 0)
}

proof fn lemma_bit_empty()
    ensures
        bits(0u64) =~= Set::<int>::empty(),
{
    assert forall|v: int| !holds(0u64, v) by {
        if 0 <= v < 64 {
            let w = v as u64;
            assert((0u64 >> w) & 1 == 0) by (bit_vector);
        }
    }
}

proof fn lemma_bit_insert(mask: u64, val: u64)
    requires
        val < 64,
    ensures
        bits(mask | (1u64 << val)) =~= bits(mask).insert(val as int),
{
    let m = mask | (1u64 << val);
    assert forall|v: int| holds(m, v) == (holds(mask, v) || v == val) by {
        if 0 <= v < 64 {
            let w = v as u64;
            assert(((mask | (1u64 << val)) >> w) & 1 == 1 <==> ((mask >> w) & 1 == 1 || w == val))
                by (bit_vector)
                requires
                    val < 64,
                    w < 64,
            ;
        }
    }
}

proof fn lemma_bit_union(a: u64, b: u64)
    ensures
        bits(a | b) =~= bits(a).union(bits(b)),
{
    assert forall|v: int| holds(a | b, v) == (holds(a, v) || holds(b, v)) by {
        if 0 <= v < 64 {
            let w = v as u64;
            assert(((a | b) >> w) & 1 == 1 <==> ((a >> w) & 1 == 1 || (b >> w) & 1 == 1))
                by (bit_vector)
                requires
                    w < 64,
            ;
        }
    }
}

proof fn lemma_bits_from(a: u64, b: u64, i: u64)
    requires
        bits(a) =~= bits(b),
        i < 64,
    ensures
        a >> i == b >> i,
    decreases 64 - i,
{
    assert(holds(a, i as int) == bits(a).contains(i as int));
    assert(holds(b, i as int) == bits(b).contains(i as int));
    assert((a >> i) & 1 == (b >> i) & 1) by {
        assert((a >> i) & 1 == 0 || (a >> i) & 1 == 1) by (bit_vector);
        assert((b >> i) & 1 == 0 || (b >> i) & 1 == 1) by (bit_vector);
    }
    if i == 63 {
        assert((a >> 63u64) & 1 == (b >> 63u64) & 1 ==> a >> 63u64 == b >> 63u64) by (bit_vector);
    } else {
        let j = (i + 1) as u64;
        lemma_bits_from(a, b, j);
        assert(a >> i == b >> i) by (bit_vector)
            requires
                i < 63,
                j == i + 1,
                a >> j == b >> j,
                (a >> i) & 1 == (b >> i) & 1,
        ;
    }
}

/// Two bitsets that hold the same values are the same number.
proof fn lemma_bits_injective(a: u64, b: u64)
    ensures
        bits(a) == bits(b) <==> a == b,
{
    if bits(a) == bits(b) {
        lemma_bits_from(a, b, 0);
        assert(a >> 0u64 == b >> 0u64 ==> a == b) by (bit_vector);
    }
}

/// Whether a bitset holds `val`.
pub fn bit(mask: u64, val: u8) -> (r: bool)
    requires
        val < 64,
    ensures
        r == bits(mask).contains(val as int),
{
    assert(bits(mask).contains(val as int) == holds(mask, val as int));
    (mask >> (val as u64)) & 1 == 1
}

/// The bitset of all values of a field, by which a wildcard is recognised.
pub fn wildcard_mask(bounds: (u8, u8)) -> (r: u64)
    requires
        bounds.1 < 64,
    ensures
        bits(r) == range(bounds.0 as int, bounds.1 as int),
{
    let mut m: u64 = 0;
    let mut v: u8 = bounds.0;
    proof {
        lemma_bit_empty();
    }
    while v <= bounds.1
        invariant
            bounds.1 < 64,
            bounds.0 <= v,
            v <= bounds.1 + 1 || v == bounds.0,
            bits(m) =~= range(bounds.0 as int, v - 1),
        decreases 64 - v,
    {
        proof {
            lemma_bit_insert(m, v as u64);
        }
        m = m | (1u64 << (v as u64));
        v = v + 1;
    }
    assert(range(bounds.0 as int, v - 1) =~= range(bounds.0 as int, bounds.1 as int));
    m
}

// ---- parsing -----------------------------------------------------------------

/// A number within the bounds of a field.
pub open spec fn number_of(s: Seq<char>, lo: int, hi: int) -> Result<int, Seq<char>> {
    match crate::text::unsigned(s, u32::MAX as nat) {
        None => Err("cron value "@ + crate::text::debug_quoted(s) + " is not an integer"@),
        Some(n) => if lo <= n <= hi {
            Ok(n as int)
        } else {
            Err(
                "cron value "@ + crate::text::decimal(n) + " out of range ["@ + crate::text::decimal(
                    lo as nat,
                ) + ","@ + crate::text::decimal(hi as nat) + "]"@,
            )
        },
    }
}

/// The step of an item, at least 1.
pub open spec fn step_of(item: Seq<char>, lo: int, hi: int) -> Result<int, Seq<char>> {
    match crate::text::split_at_char(item, '/') {
        None => Ok(1),
        Some(p) => match number_of(p.1, lo, hi) {
            Err(e) => Err(e),
            Ok(n) => Ok(if n < 1 { 1 } else { n }),
        },
    }
}

/// An item without its step.
pub open spec fn part_of(item: Seq<char>) -> Seq<char> {
    match crate::text::split_at_char(item, '/') {
        None => item,
        Some(p) => p.0,
    }
}

/// The first and the last value of an item.
pub open spec fn ends_of(item: Seq<char>, lo: int, hi: int) -> Result<(int, int), Seq<char>> {
    let part = part_of(item);
    if part == "*"@ {
        Ok((lo, hi))
    } else {
        match crate::text::split_at_char(part, '-') {
            Some(p) => match number_of(p.0, lo, hi) {
                Err(e) => Err(e),
                Ok(a) => match number_of(p.1, lo, hi) {
                    Err(e) => Err(e),
                    Ok(b) => Ok((a, b)),
                },
            },
            None => match number_of(part, lo, hi) {
                Err(e) => Err(e),
                Ok(v) => Ok((v, v)),
            },
        }
    }
}

/// The values of a range as days of the week, where the field is the one that goes
/// up to 7: a 7 in it is a 0.
pub open spec fn on_weekdays(s: Set<int>, hi: int) -> Set<int> {
    if hi == 7 && s.contains(7) {
        s.remove(7).insert(0)
    } else {
        s
    }
}

/// The values that an item selects. A wildcard keeps its 7, by which it is told from
/// a range of all days.
pub open spec fn item_of(item: Seq<char>, lo: int, hi: int) -> Result<Set<int>, Seq<char>> {
    match step_of(item, lo, hi) {
        Err(e) => Err(e),
        Ok(step) => match ends_of(item, lo, hi) {
            Err(e) => Err(e),
            Ok(p) => if p.1 < p.0 {
                Err("cron range "@ + crate::text::debug_quoted(item) + " has end < start"@)
            } else if part_of(item) == "*"@ {
                Ok(stepped(p.0, p.1, step))
            } else {
                Ok(on_weekdays(stepped(p.0, p.1, step), hi))
            },
        },
    }
}

/// The values that a list of items selects.
pub open spec fn items_of(items: Seq<Seq<char>>, lo: int, hi: int) -> Result<Set<int>, Seq<char>>
    decreases items.len(),
{
    if items.len() == 0 {
        Ok(Set::empty())
    } else {
        match items_of(items.drop_last(), lo, hi) {
            Err(e) => Err(e),
            Ok(a) => match item_of(items.last(), lo, hi) {
                Err(e) => Err(e),
                Ok(b) => Ok(a.union(b)),
            },
        }
    }
}

/// The values that a field selects.
pub open spec fn field_of(field: Seq<char>, lo: int, hi: int) -> Result<Set<int>, Seq<char>> {
    items_of(crate::text::parts(field, ','), lo, hi)
}

/// The bounds of the fields second, minute, hour, day, month and weekday.
pub open spec fn bounds_of(i: int) -> (int, int) {
    if i == 0 || i == 1 {
        (0, 59)
    } else if i == 2 {
        (0, 23)
    } else if i == 3 {
        (1, 31)
    } else if i == 4 {
        (1, 12)
    } else {
        (0, 7)
    }
}

/// The first `k` fields of an expression; of five fields the first is the
/// minute, of six the second.
pub open spec fn fields_of(words: Seq<Seq<char>>, k: int) -> Result<Seq<Set<int>>, Seq<char>>
    decreases k,
{
    if k <= 0 {
        Ok(Seq::empty())
    } else {
        match fields_of(words, k - 1) {
            Err(e) => Err(e),
            Ok(fs) => {
                let b = bounds_of(k - 1 + 6 - words.len());
                match field_of(words[k - 1], b.0, b.1) {
                    Err(e) => Err(e),
                    Ok(f) => Ok(fs.push(f)),
                }
            },
        }
    }
}

/// What a cron expression selects.
#[verifier::ext_equal]
pub struct CronModel {
    pub second: Option<Set<int>>,
    pub minute: Set<int>,
    pub hour: Set<int>,
    pub day: Set<int>,
    pub month: Set<int>,
    pub weekday: Set<int>,
    pub raw: Seq<char>,
}

/// The expression with the given fields, five or six.
pub open spec fn model_of(fs: Seq<Set<int>>, raw: Seq<char>) -> CronModel {
    let n = fs.len();
    CronModel {
        second: if n == 6 { Some(fs[0]) } else { None },
        minute: fs[n - 5],
        hour: fs[n - 4],
        day: fs[n - 3],
        month: fs[n - 2],
        weekday: fs[n - 1],
        raw,
    }
}

/// The meaning of a cron expression, or why it has none.
pub open spec fn cron_of(expr: Seq<char>) -> Result<CronModel, Seq<char>> {
    let w = crate::text::words(expr);
    if w.len() != 5 && w.len() != 6 {
        Err(
            "cron expression must have 5 or 6 fields, got "@ + crate::text::decimal(w.len()) + ": "@
                + crate::text::debug_quoted(expr),
        )
    } else {
        match fields_of(w, w.len() as int) {
            Err(e) => Err(e),
            Ok(fs) => Ok(model_of(fs, crate::text::trimmed(expr))),
        }
    }
}

/// Parses a number within the bounds of a field.
pub fn parse_u8(s: &str, bounds: (u8, u8)) -> (r: Result<u8, String>)
    ensures
        match r {
            Ok(n) => number_of(s@, bounds.0 as int, bounds.1 as int) == Ok::<int, Seq<char>>(
                n as int,
            ),
            Err(e) => number_of(s@, bounds.0 as int, bounds.1 as int) == Err::<int, Seq<char>>(e@),
        },
{
    match parse_unsigned(s, u32::MAX as u64) {
        None => Err(cat(&cat("cron value ", &debug_text(s)), " is not an integer")),
        Some(n) => {
            if n > bounds.1 as u64 || n < bounds.0 as u64 {
                let a: String = cat(&cat("cron value ", &decimal_text(n)), " out of range [");
                let b: String = cat(&cat(&a, &decimal_text(bounds.0 as u64)), ",");
                Err(cat(&cat(&b, &decimal_text(bounds.1 as u64)), "]"))
            } else {
                Ok(n as u8)
            }
        },
    }
}

/// A result whose values are a bitset agrees with one whose values are a set.
pub open spec fn agrees(r: Result<u64, String>, s: Result<Set<int>, Seq<char>>) -> bool {
    match r {
        Ok(m) => s == Ok::<Set<int>, Seq<char>>(bits(m)),
        Err(e) => s == Err::<Set<int>, Seq<char>>(e@),
    }
}

proof fn lemma_step(start: int, v: int, step: int)
    requires
        step > 0,
        (v - start) % step == 0,
    ensures
        (v + step - start) % step == 0,
        forall|w: int| v <= w < v + step ==> ((#[trigger] (w - start)) % step == 0 <==> w == v),
{
    let k = (v - start) / step;
    vstd::arithmetic::div_mod::lemma_fundamental_div_mod(v - start, step);
    assert(v - start == step * k);
    assert(v + step - start == (k + 1) * step + 0) by (nonlinear_arith)
        requires
            v - start == step * k,
    ;
    vstd::arithmetic::div_mod::lemma_fundamental_div_mod_converse(v + step - start, step, k + 1, 0);
    assert forall|w: int| v <= w < v + step implies ((#[trigger] (w - start)) % step == 0 <==> w
        == v) by {
        assert(w - start == k * step + (w - v)) by (nonlinear_arith)
            requires
                v - start == step * k,
        ;
        vstd::arithmetic::div_mod::lemma_fundamental_div_mod_converse(w - start, step, k, w - v);
    }
}

/// The bitset of the values `start`, `start + step`, ... up to `end`.
fn stepped_mask(start: u8, end: u8, step: u8) -> (r: u64)
    requires
        start <= end < 64,
        1 <= step < 64,
    ensures
        bits(r) == stepped(start as int, end as int, step as int),
{
    let mut mask: u64 = 0;
    let mut v: u8 = start;
    proof {
        lemma_bit_empty();
        vstd::arithmetic::div_mod::lemma_small_mod(0, step as nat);
    }
    while v <= end
        invariant
            start <= end < 64,
            1 <= step < 64,
            start <= v < 128,
            (v - start) % step as int == 0,
            bits(mask) =~= Set::new(
                |w: int| start <= w < v && w <= end && (w - start) % step as int == 0,
            ),
        decreases 128 - v,
    {
        proof {
            lemma_bit_insert(mask, v as u64);
            lemma_step(start as int, v as int, step as int);
        }
        let ghost before = bits(mask);
        mask = mask | (1u64 << (v as u64));
        assert(bits(mask) =~= Set::new(
            |w: int|
                start <= w < v + step && w <= end && (w - start) % step as int == 0,
        ));
        v = v + step;
    }
    assert(bits(mask) =~= stepped(start as int, end as int, step as int));
    mask
}

/// The bitset of a range as days of the week.
fn weekday_mask(mask: u64) -> (r: u64)
    ensures
        bits(r) == on_weekdays(bits(mask), 7),
{
    if bit(mask, 7) {
        let r: u64 = (mask & 0xffff_ffff_ffff_ff7fu64) | 1u64;
        proof {
            assert forall|v: int| holds(r, v) == ((holds(mask, v) && v != 7) || v == 0) by {
                if 0 <= v < 64 {
                    let w = v as u64;
                    assert((((mask & 0xffff_ffff_ffff_ff7fu64) | 1u64) >> w) & 1 == 1 <==> (((mask
                        >> w) & 1 == 1 && w != 7) || w == 0)) by (bit_vector)
                        requires
                            w < 64,
                    ;
                }
            }
            assert(bits(r) =~= on_weekdays(bits(mask), 7));
        }
        r
    } else {
        mask
    }
}

/// Parses one item of a field: a value, a range or `*`, with an optional step.
pub fn parse_item(item: &str, bounds: (u8, u8)) -> (r: Result<u64, String>)
    requires
        bounds.0 <= bounds.1 < 64,
    ensures
        agrees(r, item_of(item@, bounds.0 as int, bounds.1 as int)),
{
    let (part, step): (String, u8) = match split_once_char(item, '/') {
        Some((a, b)) => match parse_u8(&b, bounds) {
            Err(e) => {
                return Err(e);
            },
            Ok(n) => (a, if n < 1 {
                1
            } else {
                n
            }),
        },
        None => (item.to_string(), 1),
    };
    let any: bool = same(&part, "*");
    let (start, end): (u8, u8) = if any {
        bounds
    } else {
        match split_once_char(&part, '-') {
            Some((a, b)) => {
                let x: u8 = match parse_u8(&a, bounds) {
                    Err(e) => {
                        return Err(e);
                    },
                    Ok(v) => v,
                };
                let y: u8 = match parse_u8(&b, bounds) {
                    Err(e) => {
                        return Err(e);
                    },
                    Ok(v) => v,
                };
                (x, y)
            },
            None => match parse_u8(&part, bounds) {
                Err(e) => {
                    return Err(e);
                },
                Ok(v) => (v, v),
            },
        }
    };
    if end < start {
        return Err(cat(&cat("cron range ", &debug_text(item)), " has end < start"));
    }
    let mask: u64 = stepped_mask(start, end, step);
    if any || bounds.1 != 7 {
        Ok(mask)
    } else {
        Ok(weekday_mask(mask))
    }
}

/// Parses a field: items joined by commas.
pub fn parse_field(field: &str, bounds: (u8, u8)) -> (r: Result<u64, String>)
    requires
        bounds.0 <= bounds.1 < 64,
    ensures
        agrees(r, field_of(field@, bounds.0 as int, bounds.1 as int)),
{
    let items: Vec<String> = split_char(field, ',');
    let ghost all = crate::text::views(items@);
    let ghost lo = bounds.0 as int;
    let ghost hi = bounds.1 as int;
    let mut mask: u64 = 0;
    let mut i: usize = 0;
    proof {
        lemma_bit_empty();
    }
    while i < items.len()
        invariant
            bounds.0 <= bounds.1 < 64,
            lo == bounds.0,
            hi == bounds.1,
            all == crate::text::views(items@),
            all == crate::text::parts(field@, ','),
            i <= items@.len(),
            items_of(all.take(i as int), lo, hi) == Ok::<Set<int>, Seq<char>>(bits(mask)),
        decreases items@.len() - i,
    {
        let ghost t = all.take(i + 1);
        assert(t.drop_last() =~= all.take(i as int));
        assert(t.last() == items@[i as int]@);
        match parse_item(&items[i], bounds) {
            Err(e) => {
                proof {
                    lemma_items_err(all, i + 1, lo, hi, e@);
                }
                return Err(e);
            },
            Ok(m) => {
                proof {
                    lemma_bit_union(mask, m);
                }
                mask = mask | m;
            },
        }
        i = i + 1;
    }
    assert(all.take(items@.len() as int) =~= all);
    Ok(mask)
}

/// An error within the first `k` items is the error of the list.
proof fn lemma_items_err(items: Seq<Seq<char>>, k: int, lo: int, hi: int, e: Seq<char>)
    requires
        0 <= k <= items.len(),
        items_of(items.take(k), lo, hi) == Err::<Set<int>, Seq<char>>(e),
    ensures
        items_of(items, lo, hi) == Err::<Set<int>, Seq<char>>(e),
    decreases items.len() - k,
{
    if k == items.len() {
        assert(items.take(k) =~= items);
    } else {
        assert(items.take(k + 1).drop_last() =~= items.take(k));
        lemma_items_err(items, k + 1, lo, hi, e);
    }
}

/// An error within the first `k` fields is the error of the expression.
proof fn lemma_fields_err(words: Seq<Seq<char>>, k: int, n: int, e: Seq<char>)
    requires
        0 <= k <= n,
        fields_of(words, k) == Err::<Seq<Set<int>>, Seq<char>>(e),
    ensures
        fields_of(words, n) == Err::<Seq<Set<int>>, Seq<char>>(e),
    decreases n - k,
{
    if k < n {
        lemma_fields_err(words, k + 1, n, e);
    }
}

/// The bounds of the fields second, minute, hour, day, month and weekday.
fn bounds_at(i: usize) -> (r: (u8, u8))
    requires
        i < 6,
    ensures
        bounds_of(i as int) == (r.0 as int, r.1 as int),
        r.0 <= r.1 < 64,
{
    if i == 0 || i == 1 {
        (0, 59)
    } else if i == 2 {
        (0, 23)
    } else if i == 3 {
        (1, 31)
    } else if i == 4 {
        (1, 12)
    } else {
        (0, 7)
    }
}

/// The sets of a sequence of bitsets.
pub open spec fn sets(masks: Seq<u64>) -> Seq<Set<int>> {
    masks.map_values(|m: u64| bits(m))
}

// ---- expressions ---------------------------------------------------------------

/// A compiled cron expression.
#[derive(Debug)]
pub struct Cron {
    /// The selected seconds, of a six-field expression.
    second: Option<u64>,
    /// The bitsets of minute, hour, day, month and weekday.
    minute: u64,
    hour: u64,
    day: u64,
    month: u64,
    weekday: u64,
    raw: String,
}

impl Clone for Cron {
    fn clone(&self) -> (r: Self)
        ensures
            r == *self,
    {
        Cron {
            second: self.second,
            minute: self.minute,
            hour: self.hour,
            day: self.day,
            month: self.month,
            weekday: self.weekday,
            raw: self.raw.clone(),
        }
    }
}

impl View for Cron {
    type V = CronModel;

    closed spec fn view(&self) -> CronModel {
        CronModel {
            second: match self.second {
                None => None,
                Some(m) => Some(bits(m)),
            },
            minute: bits(self.minute),
            hour: bits(self.hour),
            day: bits(self.day),
            month: bits(self.month),
            weekday: bits(self.weekday),
            raw: self.raw@,
        }
    }
}

/// Whether an expression selects a minute. When both the day of the month and
/// the day of the week are restricted, either selects the day.
pub open spec fn selects(
    m: CronModel,
    minute: int,
    hour: int,
    day: int,
    month: int,
    weekday: int,
) -> bool {
    &&& m.minute.contains(minute)
    &&& m.hour.contains(hour)
    &&& m.month.contains(month)
    &&& if m.day == range(1, 31) || m.weekday == range(0, 7) {
        m.day.contains(day) && m.weekday.contains(weekday)
    } else {
        m.day.contains(day) || m.weekday.contains(weekday)
    }
}

/// Whether an expression selects the minute that holds the instant `t`.
pub open spec fn selects_minute(m: CronModel, t: int) -> bool {
    let days = t / 86400;
    let secs = t % 86400;
    let c = crate::calendar::civil_of(days);
    selects(
        m,
        (secs % 3600) / 60,
        secs / 3600,
        c.day,
        c.month,
        crate::calendar::weekday_of(days),
    )
}

/// Whether an expression fires at the instant `t`: on whole minutes with five
/// fields, on the selected seconds with six.
pub open spec fn fires(m: CronModel, t: int) -> bool {
    &&& match m.second {
        None => t % 60 == 0,
        Some(s) => s.contains(t % 60),
    }
    &&& selects_minute(m, t)
}

/// The distance between two candidates for firing.
pub open spec fn tick(m: CronModel) -> int {
    if m.second is None { 60 } else { 1 }
}

/// The last instant that a search from `epoch` looks at.
pub open spec fn horizon(epoch: int) -> int {
    epoch + 366 * 86400
}

/// `r` is the next instant after `epoch` at which the expression fires, or the
/// first candidate past the horizon when it fires at none up to there.
pub open spec fn is_next(m: CronModel, epoch: int, r: int) -> bool {
    &&& epoch < r
    &&& r % tick(m) == 0
    &&& forall|t: int| epoch < t < r ==> !#[trigger] fires(m, t)
    &&& r <= horizon(epoch) ==> fires(m, r)
    &&& r > horizon(epoch) ==> r - tick(m) <= horizon(epoch)
}

/// The next instant after `epoch` that a search finds.
pub open spec fn next_of(m: CronModel, epoch: int) -> int {
    choose|r: int| is_next(m, epoch, r)
}

/// The calendar fields of an instant: minute, hour, day, month and weekday, of
/// which 0 is Sunday.
pub fn to_fields(epoch_secs: i64) -> (r: (u8, u8, u8, u8, u8))
    ensures
        r.0 == (epoch_secs as int % 86400) % 3600 / 60,
        r.1 == (epoch_secs as int % 86400) / 3600,
        r.2 == crate::calendar::civil_of(epoch_secs as int / 86400).day,
        r.3 == crate::calendar::civil_of(epoch_secs as int / 86400).month,
        r.4 == crate::calendar::weekday_of(epoch_secs as int / 86400),
        r.0 < 60,
        r.1 < 24,
        1 <= r.2 <= 31,
        1 <= r.3 <= 12,
        r.4 < 7,
{
    let days: i64 = floor_div(epoch_secs, 86400);
    let secs: i64 = floor_rem(epoch_secs, 86400);
    let hour: i64 = secs / 3600;
    let minute: i64 = (secs % 3600) / 60;
    let (year, month, day): (i64, u8, u8) = civil_from_days(days);
    let weekday: i64 = floor_rem(days + 4, 7);
    (minute as u8, hour as u8, day, month, weekday as u8)
}

impl Cron {
    /// Parses an expression of five or six fields.
    pub fn parse(expr: &str) -> (r: Result<Cron, String>)
        ensures
            match r {
                Ok(c) => cron_of(expr@) == Ok::<CronModel, Seq<char>>(c@),
                Err(e) => cron_of(expr@) == Err::<CronModel, Seq<char>>(e@),
            },
    {
        let words: Vec<String> = split_words(expr);
        let ghost all = crate::text::views(words@);
        let n: usize = words.len();
        if n != 5 && n != 6 {
            let a: String = cat(
                "cron expression must have 5 or 6 fields, got ",
                &decimal_text(n as u64),
            );
            return Err(cat(&cat(&a, ": "), &debug_text(expr)));
        }
        let mut masks: Vec<u64> = Vec::new();
        let mut i: usize = 0;
        assert(sets(masks@) =~= Seq::<Set<int>>::empty());
        while i < n
            invariant
                n == words@.len(),
                n == 5 || n == 6,
                all == crate::text::views(words@),
                all == crate::text::words(expr@),
                i <= n,
                masks@.len() == i,
                fields_of(all, i as int) == Ok::<Seq<Set<int>>, Seq<char>>(sets(masks@)),
            decreases n - i,
        {
            let ghost before = masks@;
            assert(all[i as int] == words@[i as int]@);
            match parse_field(&words[i], bounds_at(i + 6 - n)) {
                Err(e) => {
                    proof {
                        lemma_fields_err(all, i + 1, n as int, e@);
                    }
                    return Err(e);
                },
                Ok(m) => {
                    masks.push(m);
                    assert(sets(masks@) =~= sets(before).push(bits(m)));
                },
            }
            i = i + 1;
        }
        let c: Cron = Cron {
            second: if n == 6 {
                Some(masks[0])
            } else {
                None
            },
            minute: masks[n - 5],
            hour: masks[n - 4],
            day: masks[n - 3],
            month: masks[n - 2],
            weekday: masks[n - 1],
            raw: trim(expr),
        };
        assert(c@ =~= model_of(sets(masks@), crate::text::trimmed(expr@)));
        Ok(c)
    }

    /// The text of the expression.
    pub fn as_str(&self) -> (r: &str)
        ensures
            r@ == self@.raw,
    {
        self.raw.as_str()
    }

    /// Whether the expression selects the given minute.
    pub fn matches(&self, minute: u8, hour: u8, day: u8, month: u8, weekday: u8) -> (r: bool)
        requires
            minute < 64,
            hour < 64,
            day < 64,
            month < 64,
            weekday < 64,
        ensures
            r == selects(
                self@,
                minute as int,
                hour as int,
                day as int,
                month as int,
                weekday as int,
            ),
    {
        let any_day: u64 = wildcard_mask((1, 31));
        let any_weekday: u64 = wildcard_mask((0, 7));
        proof {
            lemma_bits_injective(self.day, any_day);
            lemma_bits_injective(self.weekday, any_weekday);
        }
        if !bit(self.minute, minute) || !bit(self.hour, hour) || !bit(self.month, month) {
            return false;
        }
        let by_day: bool = bit(self.day, day);
        let by_weekday: bool = bit(self.weekday, weekday);
        if self.day == any_day || self.weekday == any_weekday {
            by_day && by_weekday
        } else {
            by_day || by_weekday
        }
    }

    /// Whether the expression fires at the instant `t`, which lies on a whole
    /// minute for an expression of five fields.
    fn fires_at(&self, t: i64) -> (r: bool)
        requires
            t as int % tick(self@) == 0,
        ensures
            r == fires(self@, t as int),
    {
        let (minute, hour, day, month, weekday) = to_fields(t);
        let on_second: bool = match self.second {
            None => true,
            Some(m) => bit(m, floor_rem(t, 60) as u8),
        };
        on_second && self.matches(minute, hour, day, month, weekday)
    }

    /// The next instant strictly after `epoch_secs` at which the expression
    /// fires. The search looks at whole minutes, or at seconds for a six-field
    /// expression, and gives up after a year.
    pub fn next_after(&self, epoch_secs: i64) -> (r: i64)
        requires
            epoch_secs <= i64::MAX - 366 * 86400 - 60,
        ensures
            is_next(self@, epoch_secs as int, r as int),
            r == next_of(self@, epoch_secs as int),
    {
        let limit: i64 = epoch_secs + 366 * 86400;
        let step: i64 = if self.second.is_none() {
            60
        } else {
            1
        };
        let ghost q = epoch_secs as int / step as int;
        let k: i64 = floor_div(epoch_secs, step);
        assert((q + 1) * step == q * step + step) by (nonlinear_arith);
        assert(q * step <= epoch_secs < q * step + step) by {
            vstd::arithmetic::div_mod::lemma_fundamental_div_mod(epoch_secs as int, step as int);
            assert(step * q == q * step) by (nonlinear_arith);
        }
        let mut t: i64 = if self.second.is_none() {
            (k + 1) * 60
        } else {
            epoch_secs + 1
        };
        while t <= limit
            invariant
                limit == epoch_secs + 366 * 86400,
                epoch_secs <= i64::MAX - 366 * 86400 - 60,
                step == tick(self@),
                epoch_secs < t <= limit + step,
                t as int % step as int == 0,
                forall|u: int| epoch_secs < u < t ==> !#[trigger] fires(self@, u),
            decreases limit + step - t,
        {
            if self.fires_at(t) {
                proof {
                    next_exists(self@, epoch_secs as int);
                    next_is_unique(
                        self@,
                        epoch_secs as int,
                        t as int,
                        next_of(self@, epoch_secs as int),
                    );
                }
                return t;
            }
            assert(!fires(self@, t as int));
            assert forall|u: int| epoch_secs < u < t + step implies !#[trigger] fires(self@, u) by {
                if t < u {
                    assert(step == 60);
                    assert(u % 60 != 0);
                }
            }
            t = t + step;
        }
        proof {
            next_exists(self@, epoch_secs as int);
            next_is_unique(self@, epoch_secs as int, t as int, next_of(self@, epoch_secs as int));
        }
        t
    }
}

// ---- laws --------------------------------------------------------------------

proof fn lemma_search(m: CronModel, epoch: int, t: int)
    requires
        epoch < t <= horizon(epoch) + tick(m),
        t % tick(m) == 0,
        forall|u: int| epoch < u < t ==> !#[trigger] fires(m, u),
    ensures
        exists|r: int| is_next(m, epoch, r),
    decreases horizon(epoch) + tick(m) - t,
{
    if t > horizon(epoch) || fires(m, t) {
        assert(is_next(m, epoch, t));
    } else {
        let step = tick(m);
        assert forall|u: int| epoch < u < t + step implies !#[trigger] fires(m, u) by {
            if t < u {
                assert(u % 60 != 0);
            }
        }
        lemma_search(m, epoch, t + step);
    }
}

/// There is a next instant, whatever the expression and the start.
pub proof fn next_exists(m: CronModel, epoch: int)
    ensures
        is_next(m, epoch, next_of(m, epoch)),
{
    if m.second is None {
        let t = (epoch / 60 + 1) * 60;
        assert forall|u: int| epoch < u < t implies !#[trigger] fires(m, u) by {
            assert(u % 60 != 0);
        }
        lemma_search(m, epoch, t);
    } else {
        lemma_search(m, epoch, epoch + 1);
    }
}

/// There is one next instant.
pub proof fn next_is_unique(m: CronModel, epoch: int, a: int, b: int)
    requires
        is_next(m, epoch, a),
        is_next(m, epoch, b),
    ensures
        a == b,
{
    next_is_monotonic(m, epoch, epoch, a, b);
    next_is_monotonic(m, epoch, epoch, b, a);
}

/// A later start never has an earlier next instant.
pub proof fn next_is_monotonic(m: CronModel, e1: int, e2: int, r1: int, r2: int)
    requires
        e1 <= e2,
        is_next(m, e1, r1),
        is_next(m, e2, r2),
    ensures
        r1 <= r2,
{
    if r2 < r1 {
        assert(!fires(m, r2));
        assert(r2 > horizon(e2));
        if tick(m) == 60 {
            assert(r1 % 60 == 0 && r2 % 60 == 0);
            assert(r2 <= r1 - 60);
        }
    }
}

/// The next instant after the next instant is later still.
pub proof fn next_advances(m: CronModel, epoch: int, r1: int, r2: int)
    requires
        is_next(m, epoch, r1),
        is_next(m, r1, r2),
    ensures
        epoch < r1 < r2,
{
}

/// An expression of five fields fires on whole minutes only.
pub proof fn five_fields_fire_on_minutes(expr: Seq<char>, m: CronModel, t: int)
    requires
        cron_of(expr) == Ok::<CronModel, Seq<char>>(m),
        crate::text::words(expr).len() == 5,
        fires(m, t),
    ensures
        t % 60 == 0,
{
    lemma_fields_len(crate::text::words(expr), 5);
}

proof fn lemma_fields_len(words: Seq<Seq<char>>, k: int)
    requires
        0 <= k,
    ensures
        fields_of(words, k) matches Ok(fs) ==> fs.len() == k,
    decreases k,
{
    if k > 0 {
        lemma_fields_len(words, k - 1);
    }
}

/// In the day-of-week field a range selects Sunday as 0, whether it holds 0 or 7, and
/// every other day as itself: `5-7` is Friday, Saturday and Sunday.
pub proof fn seven_is_sunday(item: Seq<char>, a: int, b: int, n: int)
    requires
        part_of(item) != "*"@,
        ends_of(item, 0, 7) == Ok::<(int, int), Seq<char>>((a, b)),
        step_of(item, 0, 7) == Ok::<int, Seq<char>>(n),
        a <= b,
    ensures
        item_of(item, 0, 7) matches Ok(s) && forall|v: int|
            #![trigger s.contains(v)]
            s.contains(v) <==> (v == 0 && (stepped(a, b, n).contains(0) || stepped(a, b, n).contains(
                7,
            ))) || (1 <= v <= 6 && stepped(a, b, n).contains(v)),
{
    lemma_ends_within(item, 0, 7);
    let s = on_weekdays(stepped(a, b, n), 7);
    assert(item_of(item, 0, 7) == Ok::<Set<int>, Seq<char>>(s));
}

proof fn lemma_ends_within(item: Seq<char>, lo: int, hi: int)
    requires
        lo <= hi,
    ensures
        ends_of(item, lo, hi) matches Ok(p) ==> lo <= p.0 <= hi && lo <= p.1 <= hi,
{
}

/// Whether an item selects a value.
pub open spec fn item_selects(item: Seq<char>, lo: int, hi: int, v: int) -> bool {
    item_of(item, lo, hi) matches Ok(s) && s.contains(v)
}

proof fn lemma_number_is_plain(s: Seq<char>, lo: int, hi: int)
    requires
        number_of(s, lo, hi) is Ok,
    ensures
        forall|i: int| 0 <= i < s.len() ==> s[i] != '-' && s[i] != '/' && s[i] != '*',
        s.len() > 0,
{
    let d = crate::text::without_plus(s);
    assert forall|i: int| 0 <= i < s.len() implies s[i] != '-' && s[i] != '/' && s[i] != '*' by {
        if s[0] == '+' {
            if i > 0 {
                assert(crate::text::digit(d[i - 1]));
            }
        } else {
            assert(crate::text::digit(d[i]));
        }
    }
}

/// What a range with a step selects: `a-b/n` the values from `a` to `b` at distances of
/// `n`, with a 7 of the day-of-week field as 0.
pub proof fn ranges_select(x: Seq<char>, y: Seq<char>, z: Seq<char>, lo: int, hi: int)
    requires
        number_of(x, lo, hi) is Ok,
        number_of(y, lo, hi) is Ok,
        number_of(z, lo, hi) is Ok,
        number_of(x, lo, hi)->Ok_0 <= number_of(y, lo, hi)->Ok_0,
        1 <= number_of(z, lo, hi)->Ok_0,
    ensures
        ({
            let a = number_of(x, lo, hi)->Ok_0;
            let b = number_of(y, lo, hi)->Ok_0;
            let n = number_of(z, lo, hi)->Ok_0;
            &&& item_of(x + seq!['-'] + y + seq!['/'] + z, lo, hi) == Ok::<Set<int>, Seq<char>>(
                on_weekdays(stepped(a, b, n), hi),
            )
            &&& item_of(x + seq!['-'] + y, lo, hi) == Ok::<Set<int>, Seq<char>>(
                on_weekdays(stepped(a, b, 1), hi),
            )
            &&& item_of(x, lo, hi) == Ok::<Set<int>, Seq<char>>(
                on_weekdays(stepped(a, a, 1), hi),
            )
        }),
{
    lemma_number_is_plain(x, lo, hi);
    lemma_number_is_plain(y, lo, hi);
    reveal_strlit("*");
    let star = "*"@;
    let r = x + seq!['-'] + y;
    let item = r + seq!['/'] + z;
    assert(item =~= x + seq!['-'] + y + seq!['/'] + z);
    assert forall|i: int| 0 <= i < r.len() implies r[i] != '/' by {
        if i < x.len() {
            assert(r[i] == x[i]);
        } else if i > x.len() {
            assert(r[i] == y[i - x.len() - 1]);
        }
    }
    assert forall|i: int| 0 <= i < r.len() implies item[i] == r[i] by {}
    assert(item[r.len() as int] == '/');
    crate::text::lemma_find_char_unique(item, '/', r.len() as int);
    assert(item.take(r.len() as int) =~= r);
    assert(item.skip(r.len() as int + 1) =~= z);
    crate::text::lemma_find_char(r, '/');
    crate::text::lemma_find_char(x, '/');
    crate::text::lemma_find_char(x, '-');
    assert forall|i: int| 0 <= i < x.len() implies r[i] != '-' by {
        assert(r[i] == x[i]);
    }
    assert(r[x.len() as int] == '-');
    crate::text::lemma_find_char_unique(r, '-', x.len() as int);
    assert(r.take(x.len() as int) =~= x);
    assert(r.skip(x.len() as int + 1) =~= y);
    assert(r[0] == x[0]);
    assert(r != star && x != star) by {
        assert(star[0] == '*');
    }
    assert(part_of(item) == r && part_of(r) == r && part_of(x) == x);
}

/// What a wildcard selects: every value, and with a step `*/n` those at distances of `n`
/// from the first.
pub proof fn wildcards_select(z: Seq<char>, lo: int, hi: int)
    requires
        lo <= hi,
        number_of(z, lo, hi) is Ok,
        1 <= number_of(z, lo, hi)->Ok_0,
    ensures
        item_of("*"@, lo, hi) == Ok::<Set<int>, Seq<char>>(stepped(lo, hi, 1)),
        item_of("*"@ + seq!['/'] + z, lo, hi) == Ok::<Set<int>, Seq<char>>(
            stepped(lo, hi, number_of(z, lo, hi)->Ok_0),
        ),
{
    reveal_strlit("*");
    let w = "*"@;
    let item = w + seq!['/'] + z;
    crate::text::lemma_find_char(w, '/');
    crate::text::lemma_find_char_unique(item, '/', 1);
    assert(item.take(1) =~= w);
    assert(item.skip(2) =~= z);
}

/// A list of items selects a value exactly when one of its items does.
pub proof fn lists_join_their_items(items: Seq<Seq<char>>, lo: int, hi: int, s: Set<int>, v: int)
    requires
        items_of(items, lo, hi) == Ok::<Set<int>, Seq<char>>(s),
    ensures
        s.contains(v) <==> exists|i: int|
            0 <= i < items.len() && item_selects(#[trigger] items[i], lo, hi, v),
    decreases items.len(),
{
    if items.len() > 0 {
        let rest = items.drop_last();
        let a = items_of(rest, lo, hi)->Ok_0;
        let b = item_of(items.last(), lo, hi)->Ok_0;
        lists_join_their_items(rest, lo, hi, a, v);
        if a.contains(v) {
            let i = choose|i: int|
                0 <= i < rest.len() && item_selects(#[trigger] rest[i], lo, hi, v);
            assert(items[i] == rest[i]);
        }
        if b.contains(v) {
            assert(item_selects(items[items.len() - 1], lo, hi, v));
        }
        if exists|i: int| 0 <= i < items.len() && item_selects(#[trigger] items[i], lo, hi, v) {
            let i = choose|i: int|
                0 <= i < items.len() && item_selects(#[trigger] items[i], lo, hi, v);
            if i < items.len() - 1 {
                assert(item_selects(rest[i], lo, hi, v));
            }
        }
    }
}

proof fn lemma_wildcard(lo: int, hi: int)
    requires
        lo <= hi,
    ensures
        field_of("*"@, lo, hi) == Ok::<Set<int>, Seq<char>>(range(lo, hi)),
{
    let w = "*"@;
    reveal_strlit("*");
    crate::text::lemma_find_char(w, ',');
    crate::text::lemma_find_char(w, '/');
    let items = crate::text::parts(w, ',');
    assert(items =~= seq![w]);
    assert(items.drop_last() =~= Seq::<Seq<char>>::empty());
    assert(stepped(lo, hi, 1) =~= range(lo, hi));
    assert(items_of(items.drop_last(), lo, hi) == Ok::<Set<int>, Seq<char>>(Set::empty()));
    assert(Set::<int>::empty().union(range(lo, hi)) =~= range(lo, hi));
}

/// With wildcards in the other fields, a minute is selected exactly when some item of
/// the list of minutes selects it.
pub proof fn minutes_are_selected_by_items(
    expr: Seq<char>,
    m: CronModel,
    minute: int,
    hour: int,
    day: int,
    month: int,
    weekday: int,
)
    requires
        cron_of(expr) == Ok::<CronModel, Seq<char>>(m),
        crate::text::words(expr).len() == 5,
        forall|i: int| 1 <= i < 5 ==> #[trigger] crate::text::words(expr)[i] == "*"@,
        0 <= hour <= 23,
        1 <= day <= 31,
        1 <= month <= 12,
        0 <= weekday <= 6,
    ensures
        selects(m, minute, hour, day, month, weekday) <==> exists|i: int|
            0 <= i < crate::text::parts(crate::text::words(expr)[0], ',').len() && item_selects(
                #[trigger] crate::text::parts(crate::text::words(expr)[0], ',')[i],
                0,
                59,
                minute,
            ),
{
    let w = crate::text::words(expr);
    reveal_with_fuel(fields_of, 6);
    lemma_wildcard(0, 23);
    lemma_wildcard(1, 31);
    lemma_wildcard(1, 12);
    lemma_wildcard(0, 7);
    assert(w[1] == "*"@ && w[2] == "*"@ && w[3] == "*"@ && w[4] == "*"@);
    lemma_fields_len(w, 5);
    lists_join_their_items(crate::text::parts(w[0], ','), 0, 59, m.minute, minute);
}

/// When one of the two day fields is unrestricted, the other decides the day; when
/// both are restricted, either does.
pub proof fn day_fields_are_joined(
    m: CronModel,
    minute: int,
    hour: int,
    day: int,
    month: int,
    weekday: int,
)
    requires
        m.minute.contains(minute),
        m.hour.contains(hour),
        m.month.contains(month),
        1 <= day <= 31,
        0 <= weekday <= 6,
    ensures
        m.day == range(1, 31) ==> (selects(m, minute, hour, day, month, weekday)
            <==> m.weekday.contains(weekday)),
        m.weekday == range(0, 7) ==> (selects(m, minute, hour, day, month, weekday)
            <==> m.day.contains(day)),
        m.day != range(1, 31) && m.weekday != range(0, 7) ==> (selects(
            m,
            minute,
            hour,
            day,
            month,
            weekday,
        ) <==> (m.day.contains(day) || m.weekday.contains(weekday))),
{
}

/// When an expression fires, by the clock and the calendar in UTC: on a second that it
/// selects, or on the whole minute where it selects none, in a minute, an hour and a month
/// that it selects, and on a day that it selects by the day of the month and the day of the
/// week, of which 0 is Sunday and the first of January 1970 was a Thursday. Where both of
/// these are restricted, one of the two is enough.
pub proof fn firing_follows_the_calendar(
    m: CronModel,
    c: crate::calendar::Civil,
    hour: int,
    minute: int,
    second: int,
    t: int,
)
    requires
        crate::calendar::valid_date(c),
        0 <= hour < 24,
        0 <= minute < 60,
        0 <= second < 60,
        t == crate::calendar::day_number(c) * 86400 + hour * 3600 + minute * 60 + second,
    ensures
        ({
            let weekday = (crate::calendar::day_number(c) + 4) % 7;
            let any_day = forall|v: int| m.day.contains(v) <==> 1 <= v <= 31;
            let any_weekday = forall|v: int| m.weekday.contains(v) <==> 0 <= v <= 7;
            fires(m, t) <==> {
                &&& m.second is None ==> second == 0
                &&& m.second matches Some(s) ==> s.contains(second)
                &&& m.minute.contains(minute)
                &&& m.hour.contains(hour)
                &&& m.month.contains(c.month)
                &&& any_day || any_weekday ==> m.day.contains(c.day) && m.weekday.contains(weekday)
                &&& !any_day && !any_weekday ==> m.day.contains(c.day) || m.weekday.contains(
                    weekday,
                )
            }
        }),
{
    let days = crate::calendar::day_number(c);
    lemma_instant(days, hour, minute, second, t);
    crate::calendar::lemma_day_number_injective(crate::calendar::civil_of(days), c);
    assert(crate::calendar::civil_of(t / 86400) == c);
    assert(m.day == range(1, 31) <==> (forall|v: int| m.day.contains(v) <==> 1 <= v <= 31)) by {
        if forall|v: int| m.day.contains(v) <==> 1 <= v <= 31 {
            assert(m.day =~= range(1, 31));
        }
    }
    assert(m.weekday == range(0, 7) <==> (forall|v: int| m.weekday.contains(v) <==> 0 <= v <= 7)) by {
        if forall|v: int| m.weekday.contains(v) <==> 0 <= v <= 7 {
            assert(m.weekday =~= range(0, 7));
        }
    }
}

/// An expression whose day of the month is unrestricted fires on the days of the week that it
/// selects, counted from Sunday as 0, and on no others.
pub proof fn weekdays_decide_the_day(m: CronModel, t: int)
    requires
        forall|v: int| m.day.contains(v) <==> 1 <= v <= 31,
    ensures
        fires(m, t) ==> m.weekday.contains((t / 86400 + 4) % 7),
        (m.second is None ==> t % 60 == 0) && (m.second matches Some(s) ==> s.contains(t % 60))
            && m.minute.contains(t / 60 % 60) && m.hour.contains(t / 3600 % 24)
            && m.weekday.contains((t / 86400 + 4) % 7) && (forall|v: int|
            m.month.contains(v) <==> 1 <= v <= 12) ==> fires(m, t),
{
    let c = crate::calendar::civil_of(t / 86400);
    crate::calendar::days_have_dates(t / 86400);
    lemma_time_of_day(t);
    firing_follows_the_calendar(m, c, t / 3600 % 24, t / 60 % 60, t % 60, t);
    assert(1 <= c.day <= 31 && 1 <= c.month <= 12);
    assert(m.day.contains(c.day));
}

proof fn lemma_instant(days: int, hour: int, minute: int, second: int, t: int)
    requires
        0 <= hour < 24,
        0 <= minute < 60,
        0 <= second < 60,
        t == days * 86400 + hour * 3600 + minute * 60 + second,
    ensures
        t / 86400 == days,
        t % 86400 == hour * 3600 + minute * 60 + second,
        t % 86400 / 3600 == hour,
        t % 86400 % 3600 / 60 == minute,
        t % 60 == second,
{
    let s = hour * 3600 + minute * 60 + second;
    let m = minute * 60 + second;
    vstd::arithmetic::div_mod::lemma_fundamental_div_mod_converse(t, 86400, days, s);
    vstd::arithmetic::div_mod::lemma_fundamental_div_mod_converse(s, 3600, hour, m);
    vstd::arithmetic::div_mod::lemma_fundamental_div_mod_converse(m, 60, minute, second);
    let n = days * 1440 + hour * 60 + minute;
    vstd::arithmetic::div_mod::lemma_fundamental_div_mod_converse(t, 60, n, second);
}

proof fn lemma_time_of_day(t: int)
    ensures
        t == t / 86400 * 86400 + (t / 3600 % 24) * 3600 + (t / 60 % 60) * 60 + t % 60,
        0 <= t / 3600 % 24 < 24,
        0 <= t / 60 % 60 < 60,
        0 <= t % 60 < 60,
{
    assert(t / 60 / 60 == t / 3600);
    assert(t / 3600 / 24 == t / 86400);
}

/// The fields of an instant are those of its date and of its time of day in UTC.
pub proof fn instants_have_their_fields(
    c: crate::calendar::Civil,
    hour: int,
    minute: int,
    second: int,
    t: i64,
    r: (u8, u8, u8, u8, u8),
)
    requires
        crate::calendar::valid_date(c),
        0 <= hour < 24,
        0 <= minute < 60,
        0 <= second < 60,
        t == crate::calendar::day_number(c) * 86400 + hour * 3600 + minute * 60 + second,
        call_ensures(to_fields, (t,), r),
    ensures
        r.0 == minute,
        r.1 == hour,
        r.2 == c.day,
        r.3 == c.month,
        r.4 == (crate::calendar::day_number(c) + 4) % 7,
{
    let days = crate::calendar::day_number(c);
    lemma_instant(days, hour, minute, second, t as int);
    crate::calendar::lemma_day_number_injective(crate::calendar::civil_of(days), c);
}

/// The next instant of an expression is the first after the given one at which it fires, if
/// there is one within 366 days; and past these where there is none.
pub proof fn next_instants_are_the_first(c: &Cron, epoch: i64, r: i64, t: int)
    requires
        call_ensures(Cron::next_after, (c, epoch), r),
    ensures
        epoch < r,
        epoch < t < r ==> !fires(c@, t),
        r <= epoch + 366 * 86400 ==> fires(c@, r as int),
        r <= epoch + 366 * 86400 + 60,
{
    next_exists(c@, epoch as int);
}

/// An expression selects a minute by each of its fields; where both the day of the month and
/// the day of the week are restricted, one of the two is enough.
pub proof fn every_field_has_its_say(
    c: &Cron,
    minute: u8,
    hour: u8,
    day: u8,
    month: u8,
    weekday: u8,
    r: bool,
)
    requires
        call_ensures(Cron::matches, (c, minute, hour, day, month, weekday), r),
    ensures
        ({
            let any_day = forall|v: int| c@.day.contains(v) <==> 1 <= v <= 31;
            let any_weekday = forall|v: int| c@.weekday.contains(v) <==> 0 <= v <= 7;
            r <==> {
                &&& c@.minute.contains(minute as int)
                &&& c@.hour.contains(hour as int)
                &&& c@.month.contains(month as int)
                &&& any_day || any_weekday ==> c@.day.contains(day as int) && c@.weekday.contains(
                    weekday as int,
                )
                &&& !any_day && !any_weekday ==> c@.day.contains(day as int)
                    || c@.weekday.contains(weekday as int)
            }
        }),
{
    if forall|v: int| c@.day.contains(v) <==> 1 <= v <= 31 {
        assert(c@.day =~= range(1, 31));
    }
    if forall|v: int| c@.weekday.contains(v) <==> 0 <= v <= 7 {
        assert(c@.weekday =~= range(0, 7));
    }
}

/// The words of an expression are its fields, in the order minute, hour, day of the month,
/// month and day of the week, each within its bounds; of six words the first is the second.
/// An expression with another number of words, or with a word that is no such field, is none.
pub proof fn words_are_fields(expr: &str, r: Result<Cron, String>, w: Seq<Seq<char>>, o: int)
    requires
        call_ensures(Cron::parse, (expr,), r),
        w == crate::text::words(expr@),
        o == w.len() - 5,
    ensures
        w.len() != 5 && w.len() != 6 ==> r is Err,
        w.len() == 5 || w.len() == 6 ==> (r is Ok <==> {
            &&& o == 1 ==> field_of(w[0], 0, 59) is Ok
            &&& field_of(w[o], 0, 59) is Ok
            &&& field_of(w[o + 1], 0, 23) is Ok
            &&& field_of(w[o + 2], 1, 31) is Ok
            &&& field_of(w[o + 3], 1, 12) is Ok
            &&& field_of(w[o + 4], 0, 7) is Ok
        }),
        r matches Ok(c) ==> {
            &&& o == 0 ==> c@.second is None
            &&& o == 1 ==> (c@.second matches Some(s) && s == field_of(w[0], 0, 59)->Ok_0)
            &&& c@.minute == field_of(w[o], 0, 59)->Ok_0
            &&& c@.hour == field_of(w[o + 1], 0, 23)->Ok_0
            &&& c@.day == field_of(w[o + 2], 1, 31)->Ok_0
            &&& c@.month == field_of(w[o + 3], 1, 12)->Ok_0
            &&& c@.weekday == field_of(w[o + 4], 0, 7)->Ok_0
            &&& c@.raw == crate::text::trimmed(expr@)
        },
{
    reveal_with_fuel(fields_of, 7);
    lemma_fields_len(w, w.len() as int);
}

/// A field is its items, which commas part: it selects what one of them selects, and it is
/// none if one of them is none.
pub proof fn fields_are_their_items(field: Seq<char>, lo: int, hi: int, v: int)
    ensures
        ({
            let items = crate::text::parts(field, ',');
            &&& field_of(field, lo, hi) is Ok <==> forall|i: int|
                0 <= i < items.len() ==> item_of(#[trigger] items[i], lo, hi) is Ok
            &&& field_of(field, lo, hi) matches Ok(s) ==> (s.contains(v) <==> exists|i: int|
                0 <= i < items.len() && (item_of(#[trigger] items[i], lo, hi) matches Ok(t)
                    && t.contains(v)))
        }),
{
    let items = crate::text::parts(field, ',');
    lemma_items_ok(items, lo, hi);
    if let Ok(s) = field_of(field, lo, hi) {
        lists_join_their_items(items, lo, hi, s, v);
        if s.contains(v) {
            let i = choose|i: int|
                0 <= i < items.len() && item_selects(#[trigger] items[i], lo, hi, v);
            assert(item_of(items[i], lo, hi) is Ok);
        }
        if exists|i: int|
            0 <= i < items.len() && (item_of(#[trigger] items[i], lo, hi) matches Ok(t)
                && t.contains(v)) {
            let i = choose|i: int|
                0 <= i < items.len() && (item_of(#[trigger] items[i], lo, hi) matches Ok(t)
                    && t.contains(v));
            assert(item_selects(items[i], lo, hi, v));
        }
    }
}

proof fn lemma_items_ok(items: Seq<Seq<char>>, lo: int, hi: int)
    ensures
        items_of(items, lo, hi) is Ok <==> forall|i: int|
            0 <= i < items.len() ==> item_of(#[trigger] items[i], lo, hi) is Ok,
    decreases items.len(),
{
    if items.len() > 0 {
        let rest = items.drop_last();
        lemma_items_ok(rest, lo, hi);
        if items_of(items, lo, hi) is Ok {
            assert forall|i: int| 0 <= i < items.len() implies item_of(
                #[trigger] items[i],
                lo,
                hi,
            ) is Ok by {
                if i < rest.len() {
                    assert(rest[i] == items[i]);
                }
            }
        }
        if forall|i: int| 0 <= i < items.len() ==> item_of(#[trigger] items[i], lo, hi) is Ok {
            assert forall|i: int| 0 <= i < rest.len() implies item_of(
                #[trigger] rest[i],
                lo,
                hi,
            ) is Ok by {
                assert(rest[i] == items[i]);
            }
            assert(item_of(items[items.len() - 1], lo, hi) is Ok);
        }
    }
}

/// A number is accepted exactly within the bounds of its field.
pub proof fn numbers_are_within_bounds(n: nat, lo: int, hi: int)
    requires
        n <= u32::MAX,
    ensures
        number_of(crate::text::decimal(n), lo, hi) is Ok <==> lo <= n <= hi,
        number_of(crate::text::decimal(n), lo, hi) matches Ok(k) ==> k == n,
{
    crate::text::numbers_are_decimal(Seq::empty(), 0, n, u32::MAX as nat);
}

/// Whether `v` is one of the values from `a` to `b` at distances of `n`, where a 7 is a 0 in
/// the field of the days of the week.
pub open spec fn steps_on(a: int, b: int, n: int, weekdays: bool, v: int) -> bool {
    if weekdays {
        ||| 1 <= v <= 6 && a <= v <= b && (v - a) % n == 0
        ||| v == 0 && a == 0
        ||| v == 0 && b == 7 && (7 - a) % n == 0
    } else {
        a <= v <= b && (v - a) % n == 0
    }
}

/// What items select: `a-b/n` the values from `a` to `b` at distances of `n`, `a-b` all from
/// `a` to `b`, and `a` itself; a range that ends before it starts is none.
pub proof fn items_select_their_values(a: nat, b: nat, n: nat, lo: int, hi: int, v: int)
    requires
        0 <= lo <= a <= hi,
        lo <= b <= hi <= 59,
        1 <= n,
        lo <= n <= hi,
        hi == 7 ==> lo == 0,
    ensures
        ({
            let x = crate::text::decimal(a);
            let y = crate::text::decimal(b);
            let z = crate::text::decimal(n);
            let w = lo == 0 && hi == 7;
            &&& a <= b ==> (item_of(x + seq!['-'] + y + seq!['/'] + z, lo, hi) matches Ok(s) && (
            s.contains(v) <==> steps_on(a as int, b as int, n as int, w, v)))
            &&& a <= b ==> (item_of(x + seq!['-'] + y, lo, hi) matches Ok(s) && (s.contains(v)
                <==> steps_on(a as int, b as int, 1, w, v)))
            &&& item_of(x, lo, hi) matches Ok(s)
            &&& s.contains(v) <==> (v == a && !(w && a == 7)) || (w && a == 7 && v == 0)
        }),
{
    let x = crate::text::decimal(a);
    let y = crate::text::decimal(b);
    let z = crate::text::decimal(n);
    numbers_are_within_bounds(a, lo, hi);
    numbers_are_within_bounds(b, lo, hi);
    numbers_are_within_bounds(n, lo, hi);
    if a <= b {
        ranges_select(x, y, z, lo, hi);
        let s = stepped(a as int, b as int, n as int);
        let t = stepped(a as int, b as int, 1);
        vstd::arithmetic::div_mod::lemma_small_mod(0, n);
        assert(t.contains(v) <==> a <= v <= b);
        assert(t.contains(7) <==> a <= 7 <= b);
        assert(on_weekdays(s, hi).contains(v) <==> steps_on(
            a as int,
            b as int,
            n as int,
            lo == 0 && hi == 7,
            v,
        )) by {
            assert(s.contains(0) <==> a == 0);
        }
    }
    ranges_select(x, x, z, lo, hi);
    let u = stepped(a as int, a as int, 1);
    assert(u.contains(v) <==> v == a);
    assert(u.contains(7) <==> a == 7);
}

/// What a wildcard selects: `*` every value of the field, and `*/n` those at distances of `n`
/// from the first.
pub proof fn wildcards_select_all(n: nat, lo: int, hi: int, v: int)
    requires
        0 <= lo <= hi <= 59,
        1 <= n,
        lo <= n <= hi,
    ensures
        item_of(seq!['*'], lo, hi) matches Ok(s) && (s.contains(v) <==> lo <= v <= hi),
        item_of(seq!['*', '/'] + crate::text::decimal(n), lo, hi) matches Ok(s) && (s.contains(v)
            <==> lo <= v <= hi && (v - lo) % n as int == 0),
{
    let z = crate::text::decimal(n);
    numbers_are_within_bounds(n, lo, hi);
    wildcards_select(z, lo, hi);
    reveal_strlit("*");
    assert("*"@ =~= seq!['*']);
    assert("*"@ + seq!['/'] + z =~= seq!['*', '/'] + z);
    assert(stepped(lo, hi, 1).contains(v) <==> lo <= v <= hi);
}

/// Items that are none, and odd ones: a range that ends before it starts is none, and neither is
/// what is no number or lies outside the field; a step of nothing is a step of one, and a single
/// value with a step is the value.
pub proof fn odd_items_are_told(a: nat, b: nat, n: nat, s: Seq<char>, lo: int, hi: int, v: int)
    requires
        0 <= lo <= b < a <= hi <= 59,
        1 <= n,
        lo <= n <= hi,
        hi != 7,
    ensures
        ({
            let x = crate::text::decimal(a);
            let y = crate::text::decimal(b);
            let z = crate::text::decimal(n);
            let r = x + seq!['-'] + y;
            &&& item_of(r, lo, hi) == Err::<Set<int>, Seq<char>>(
                "cron range "@ + crate::text::debug_quoted(r) + " has end < start"@,
            )
            &&& item_of(x + seq!['/'] + z, lo, hi) matches Ok(t)
            &&& t.contains(v) <==> v == a
        }),
        lo == 0 ==> (item_of(seq!['*', '/', '0'], lo, hi) matches Ok(t) && (t.contains(v) <==> lo
            <= v <= hi)),
        crate::text::unsigned(s, u32::MAX as nat) is None ==> number_of(s, lo, hi) == Err::<
            int,
            Seq<char>,
        >("cron value "@ + crate::text::debug_quoted(s) + " is not an integer"@),
        crate::text::unsigned(s, u32::MAX as nat) matches Some(k) ==> !(lo <= k <= hi) ==> number_of(
            s,
            lo,
            hi,
        ) == Err::<int, Seq<char>>(
            "cron value "@ + crate::text::decimal(k) + " out of range ["@ + crate::text::decimal(
                lo as nat,
            ) + ","@ + crate::text::decimal(hi as nat) + "]"@,
        ),
{
    let x = crate::text::decimal(a);
    let y = crate::text::decimal(b);
    let z = crate::text::decimal(n);
    numbers_are_within_bounds(a, lo, hi);
    numbers_are_within_bounds(b, lo, hi);
    numbers_are_within_bounds(n, lo, hi);
    lemma_number_is_plain(x, lo, hi);
    lemma_number_is_plain(y, lo, hi);
    reveal_strlit("*");
    let r = x + seq!['-'] + y;
    assert forall|i: int| 0 <= i < r.len() implies #[trigger] r[i] != '/' by {
        if i < x.len() {
            assert(r[i] == x[i]);
        } else if i > x.len() {
            assert(r[i] == y[i - x.len() - 1]);
        }
    }
    crate::text::separators_part_texts(r, '/', Seq::empty());
    crate::text::separators_part_texts(x, '-', y);
    assert(r != "*"@) by {
        if r.len() == 1 {
            assert(x.len() + y.len() == 0);
        }
    }
    crate::text::separators_part_texts(x, '/', z);
    assert(x != "*"@) by {
        if x.len() == 1 {
            assert(x[0] != '*');
        }
    }
    let u = stepped(a as int, a as int, n as int);
    vstd::arithmetic::div_mod::lemma_small_mod(0, n);
    assert(u.contains(v) <==> v == a);
    if lo == 0 {
        let w = seq!['*', '/', '0'];
        assert("*"@ =~= seq!['*']);
        assert(w =~= seq!['*'] + seq!['/'] + seq!['0']);
        crate::text::separators_part_texts(seq!['*'], '/', seq!['0']);
        crate::text::numbers_are_decimal(Seq::empty(), 0, 0, u32::MAX as nat);
        assert(crate::text::decimal(0) =~= seq!['0']);
        numbers_are_within_bounds(0, lo, hi);
        assert(stepped(lo, hi, 1).contains(v) <==> lo <= v <= hi);
    }
}

/// An expression of another number of words is told for what it is.
pub proof fn word_counts_are_told(expr: &str, r: Result<Cron, String>)
    requires
        call_ensures(Cron::parse, (expr,), r),
        crate::text::words(expr@).len() != 5,
        crate::text::words(expr@).len() != 6,
    ensures
        r matches Err(e) && e@ == "cron expression must have 5 or 6 fields, got "@
            + crate::text::decimal(crate::text::words(expr@).len()) + ": "@
            + crate::text::debug_quoted(expr@),
{
}

} // verus!
