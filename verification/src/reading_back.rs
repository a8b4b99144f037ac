//! Reading back what formatting wrote.
use vstd::prelude::*;

use crate::format::{
    decimal, digit_char, parse_format_spec, render, render_int, render_year, repeat, FormatItem,
    Padding, Specifier,
};
use crate::parse::{
    digit_value, digits_value, expand, is_digit, lemma_digits_value_prefix, lemma_leading_digits,
    parse_spec, pow10, read_item, read_items, read_number, read_year, ParseError, ParsedItems,
};
use crate::parsed::{components_of, lemma_components_round_trip, outcome_matches};
use crate::primitive_date_time::PrimitiveDateTime;

verus! {

/// The digit character of `d` is a digit of value `d`.
proof fn lemma_digit_char(d: int)
    requires
        0 <= d < 10,
    ensures
        is_digit(digit_char(d)),
        digit_value(digit_char(d)) == d,
{
}

/// The decimal digits of `n` are digits, at least one, spelling `n`.
proof fn lemma_decimal(n: nat)
    ensures
        1 <= decimal(n).len(),
        forall|j: int| 0 <= j < decimal(n).len() ==> is_digit(#[trigger] decimal(n)[j]),
        digits_value(decimal(n), decimal(n).len()) == n,
    decreases n,
{
    if n < 10 {
        lemma_digit_char(n as int);
        assert(digits_value(decimal(n), 0) == 0);
    } else {
        lemma_decimal(n / 10);
        let s = decimal(n / 10);
        let c = digit_char((n % 10) as int);
        lemma_digit_char((n % 10) as int);
        let t = s.push(c);
        assert(decimal(n) == t);
        assert forall|j: int| 0 <= j < t.len() implies is_digit(#[trigger] t[j]) by {
            if j < s.len() {
                assert(t[j] == s[j]);
            }
        }
        lemma_digits_value_prefix(t, s, s.len());
        assert(digits_value(t, t.len()) == digits_value(t, s.len()) * 10 + digit_value(t[s.len() as int]));
    }
}

/// A number below `10^k` has at most `k` decimal digits.
proof fn lemma_decimal_len(n: nat, k: nat)
    requires
        1 <= k,
        n < pow10(k),
    ensures
        decimal(n).len() <= k,
    decreases k,
{
    assert(pow10(0) == 1);
    if n >= 10 {
        assert(pow10(k) == 10 * pow10((k - 1) as nat));
        lemma_decimal_len(n / 10, (k - 1) as nat);
    }
}

/// Digits that are all `0` spell zero.
proof fn lemma_digits_value_zeros(s: Seq<char>, z: nat)
    requires
        z <= s.len(),
        forall|j: int| 0 <= j < z ==> s[j] == '0',
    ensures
        digits_value(s, z) == 0,
    decreases z,
{
    if z > 0 {
        lemma_digits_value_zeros(s, (z - 1) as nat);
    }
}

/// The digits of `a` followed by `k` digits of `b` spell `a`'s number
/// shifted by `k` places plus `b`'s.
proof fn lemma_digits_value_concat(a: Seq<char>, b: Seq<char>, k: nat)
    requires
        k <= b.len(),
    ensures
        digits_value(a + b, a.len() + k) == digits_value(a, a.len()) * pow10(k) + digits_value(b, k),
    decreases k,
{
    if k == 0 {
        lemma_digits_value_prefix(a + b, a, a.len());
    } else {
        lemma_digits_value_concat(a, b, (k - 1) as nat);
        let x = digits_value(a, a.len());
        let y = digits_value(b, (k - 1) as nat);
        let p = pow10((k - 1) as nat);
        let d = digit_value(b[k - 1]);
        assert((a + b)[a.len() + k - 1] == b[k - 1]);
        assert((x * p + y) * 10 + d == x * (10 * p) + (y * 10 + d)) by (nonlinear_arith);
    }
}

/// A number from zero below `10^w`, written unpadded or zero-padded to width
/// `w`, is written with one to `w` digits (exactly `w` when zero-padded)
/// that spell it.
pub proof fn lemma_render_digits(v: int, w: nat, padding: Padding)
    requires
        0 <= v < pow10(w),
        1 <= w,
        padding == Padding::Zero || padding == Padding::Unpadded,
    ensures
        ({
            let t = render_int(v, w as int, padding);
            &&& 1 <= t.len() <= w
            &&& padding == Padding::Zero ==> t.len() == w
            &&& forall|j: int| 0 <= j < t.len() ==> is_digit(#[trigger] t[j])
            &&& digits_value(t, t.len()) == v
        }),
{
    lemma_decimal(v as nat);
    lemma_decimal_len(v as nat, w);
    let body = decimal(v as nat);
    if padding == Padding::Zero {
        let z = repeat('0', w - body.len());
        let t = z + body;
        assert(render_int(v, w as int, padding) =~= t);
        lemma_digits_value_concat(z, body, body.len());
        lemma_digits_value_zeros(z, z.len());
        assert forall|j: int| 0 <= j < t.len() implies is_digit(#[trigger] t[j]) by {
            if j >= z.len() {
                assert(t[j] == body[j - z.len()]);
            }
        }
    } else {
        assert(render_int(v, w as int, padding) =~= body);
    }
}

/// Reading a number of `least` to `most` digits where the text holds the
/// digits `t`, as many as that, followed by text that does not go on with a
/// digit, reads `t`.
pub proof fn lemma_read_digits(t: Seq<char>, rest: Seq<char>, least: nat, most: nat)
    requires
        least <= t.len() <= most,
        forall|j: int| 0 <= j < t.len() ==> is_digit(#[trigger] t[j]),
        rest.len() == 0 || !is_digit(rest[0]),
    ensures
        read_number(t + rest, least, most, false) == Some((digits_value(t, t.len()), t.len())),
{
    let s = t + rest;
    assert(s.subrange(0, s.len() as int) =~= s);
    assert forall|j: int| 0 <= j < t.len() implies is_digit(#[trigger] s[j]) by {
        assert(s[j] == t[j]);
    }
    if rest.len() > 0 {
        assert(s[t.len() as int] == rest[0]);
    }
    lemma_leading_digits(s, most, t.len());
    lemma_digits_value_prefix(s, t, t.len());
}

/// Reading a number back from what `render_int` wrote for it, unpadded or
/// zero-padded to its width, gives the number and uses what was written.
pub proof fn lemma_read_rendered(v: int, w: nat, padding: Padding, rest: Seq<char>)
    requires
        0 <= v < pow10(w),
        1 <= w,
        padding == Padding::Zero || padding == Padding::Unpadded,
        rest.len() == 0 || !is_digit(rest[0]),
    ensures
        ({
            let t = render_int(v, w as int, padding);
            let least: nat = if padding == Padding::Zero {
                w
            } else {
                1
            };
            read_number(t + rest, least, w, false) == Some((v, t.len()))
        }),
{
    lemma_render_digits(v, w, padding);
    let t = render_int(v, w as int, padding);
    let least: nat = if padding == Padding::Zero {
        w
    } else {
        1
    };
    lemma_read_digits(t, rest, least, w);
}

/// Reading an unpadded year back from what `%-Y` wrote for it gives the
/// year, for a year of at most six digits.
pub proof fn lemma_read_year(year: int, rest: Seq<char>)
    requires
        -1_000_000 < year < 1_000_000,
        rest.len() == 0 || !is_digit(rest[0]),
    ensures
        read_year(render_year(year, Padding::Unpadded) + rest, Padding::Unpadded) == Some(
            (year, render_year(year, Padding::Unpadded).len()),
        ),
{
    let a = if year < 0 {
        -year
    } else {
        year
    };
    assert(pow10(6) == 1_000_000) by {
        reveal_with_fuel(pow10, 7);
    }
    lemma_render_digits(a, 6, Padding::Unpadded);
    let body = decimal(a as nat);
    assert(render_int(a, 6, Padding::Unpadded) =~= body);
    let sign: Seq<char> = if year >= 10_000 {
        seq!['+']
    } else if year < 0 {
        seq!['-']
    } else {
        seq![]
    };
    assert(render_year(year, Padding::Unpadded) =~= sign + body);
    let s = sign + body + rest;
    assert(s.subrange(sign.len() as int, s.len() as int) =~= body + rest);
    lemma_read_digits(body, rest, 1, 6);
    if sign.len() == 0 {
        assert(s[0] == body[0]);
    }
}

/// When the first item reads exactly `t` from the text `t + rest`, giving
/// `next`, the items read the text as the other items read `rest` from `next`.
proof fn lemma_read_step(
    items: Seq<FormatItem>,
    t: Seq<char>,
    rest: Seq<char>,
    acc: ParsedItems,
    next: ParsedItems,
)
    requires
        items.len() > 0,
        read_item(items[0], t + rest, acc) == Ok::<(ParsedItems, nat), ParseError>((next, t.len())),
    ensures
        read_items(items, t + rest, acc) == read_items(items.drop_first(), rest, next),
{
    assert((t + rest).subrange(t.len() as int, (t + rest).len() as int) =~= rest);
}

/// The items of the format description `%F %T.%N`.
pub open spec fn iso_items() -> Seq<FormatItem> {
    seq![
        FormatItem::Component(Specifier::IsoDate, Padding::Default),
        FormatItem::Literal(' '),
        FormatItem::Component(Specifier::Time24, Padding::Default),
        FormatItem::Literal('.'),
        FormatItem::Component(Specifier::Nanosecond, Padding::Default),
    ]
}

/// The format description `%F %T.%N` holds the items `iso_items()`.
pub proof fn lemma_iso_description()
    ensures
        parse_format_spec("%F %T.%N"@) == Some(iso_items()),
{
    reveal_strlit("%F %T.%N");
    let s = "%F %T.%N"@;
    assert(s.subrange(8, 8) =~= Seq::<char>::empty());
    assert(s.subrange(6, 8).subrange(2, 2) =~= s.subrange(8, 8));
    assert(s.subrange(5, 8).drop_first() =~= s.subrange(6, 8));
    assert(s.subrange(3, 8).subrange(2, 5) =~= s.subrange(5, 8));
    assert(s.subrange(2, 8).drop_first() =~= s.subrange(3, 8));
    assert(s.subrange(2, 8) =~= s.subrange(2, 8));
    assert(s.subrange(2, s.len() as int) =~= s.subrange(2, 8));
    assert(parse_format_spec(s.subrange(8, 8)) == Some(Seq::<FormatItem>::empty()));
    assert(parse_format_spec(s.subrange(6, 8)) == Some(iso_items().subrange(4, 5)));
    assert(parse_format_spec(s.subrange(5, 8)) == Some(iso_items().subrange(3, 5)));
    assert(parse_format_spec(s.subrange(3, 8)) == Some(iso_items().subrange(2, 5)));
    assert(parse_format_spec(s.subrange(2, 8)) == Some(iso_items().subrange(1, 5)));
    assert(parse_format_spec(s) == Some(iso_items()));
}

/// What `iso_items()` write for a date-time: the text of `iso_text`.
pub open spec fn iso_text(y: int, m: int, d: int, h: int, mi: int, sec: int, ns: int) -> Seq<char> {
    render_year(y, Padding::Unpadded) + (seq!['-'] + (render_int(m, 2, Padding::Zero) + (seq!['-']
        + (render_int(d, 2, Padding::Zero) + (seq![' '] + iso_time_text(h, mi, sec, ns))))))
}

/// The time half of what `iso_items()` write.
pub open spec fn iso_time_text(h: int, mi: int, sec: int, ns: int) -> Seq<char> {
    render_int(h, 2, Padding::Unpadded) + (seq![':'] + (render_int(mi, 2, Padding::Zero) + (seq![':']
        + (render_int(sec, 2, Padding::Zero) + (seq!['.'] + (render_int(ns, 9, Padding::Zero)
        + Seq::<char>::empty()))))))
}

/// What `iso_items()` write for a date-time, piece by piece.
proof fn lemma_render_iso(dt: PrimitiveDateTime)
    ensures
        ({
            let date = dt.spec_date();
            let time = dt.spec_time();
            render(iso_items(), dt) == iso_text(
                date.spec_year(),
                date.spec_month(),
                date.spec_day(),
                time.spec_hour(),
                time.spec_minute(),
                time.spec_second(),
                time.spec_nanosecond(),
            )
        }),
{
    let items = iso_items();
    assert(items.subrange(0, 0) =~= Seq::<FormatItem>::empty());
    assert(items.subrange(0, 1).drop_last() =~= items.subrange(0, 0));
    assert(items.subrange(0, 2).drop_last() =~= items.subrange(0, 1));
    assert(items.subrange(0, 3).drop_last() =~= items.subrange(0, 2));
    assert(items.subrange(0, 4).drop_last() =~= items.subrange(0, 3));
    assert(items.subrange(0, 5).drop_last() =~= items.subrange(0, 4));
    assert(items.subrange(0, 5) =~= items);
    let r0 = render(items.subrange(0, 0), dt);
    let r1 = render(items.subrange(0, 1), dt);
    let r2 = render(items.subrange(0, 2), dt);
    let r3 = render(items.subrange(0, 3), dt);
    let r4 = render(items.subrange(0, 4), dt);
    let r5 = render(items.subrange(0, 5), dt);
    assert(r0 == Seq::<char>::empty());
    assert(r1 == r0 + crate::format::render_item(items[0], dt));
    assert(r2 == r1 + crate::format::render_item(items[1], dt));
    assert(r3 == r2 + crate::format::render_item(items[2], dt));
    assert(r4 == r3 + crate::format::render_item(items[3], dt));
    assert(r5 == r4 + crate::format::render_item(items[4], dt));
    let date = dt.spec_date();
    let time = dt.spec_time();
    let a = render_year(date.spec_year(), Padding::Unpadded);
    let m = render_int(date.spec_month(), 2, Padding::Zero);
    let d = render_int(date.spec_day(), 2, Padding::Zero);
    let h = render_int(time.spec_hour(), 2, Padding::Unpadded);
    let mi = render_int(time.spec_minute(), 2, Padding::Zero);
    let sec = render_int(time.spec_second(), 2, Padding::Zero);
    let n = render_int(time.spec_nanosecond(), 9, Padding::Zero);
    // The text written, grouped from the right.
    let x11 = n + Seq::<char>::empty();
    let x10 = seq!['.'] + x11;
    let x9 = sec + x10;
    let x8 = seq![':'] + x9;
    let x7 = mi + x8;
    let x6 = seq![':'] + x7;
    let x5 = h + x6;
    let x4 = seq![' '] + x5;
    let x3 = d + x4;
    let x2 = seq!['-'] + x3;
    let x1 = m + x2;
    let x0 = seq!['-'] + x1;
    assert(x11 =~= n);
    // The text written, grouped from the left.
    let l1 = a + seq!['-'];
    let l2 = l1 + m;
    let l3 = l2 + seq!['-'];
    let l4 = l3 + d;
    let l5 = l4 + seq![' '];
    let l6 = l5 + h;
    let l7 = l6 + seq![':'];
    let l8 = l7 + mi;
    let l9 = l8 + seq![':'];
    let l10 = l9 + sec;
    let l11 = l10 + seq!['.'];
    let l12 = l11 + n;
    vstd::seq_lib::lemma_concat_associative(a, seq!['-'], x1);
    vstd::seq_lib::lemma_concat_associative(l1, m, x2);
    vstd::seq_lib::lemma_concat_associative(l2, seq!['-'], x3);
    vstd::seq_lib::lemma_concat_associative(l3, d, x4);
    vstd::seq_lib::lemma_concat_associative(l4, seq![' '], x5);
    vstd::seq_lib::lemma_concat_associative(l5, h, x6);
    vstd::seq_lib::lemma_concat_associative(l6, seq![':'], x7);
    vstd::seq_lib::lemma_concat_associative(l7, mi, x8);
    vstd::seq_lib::lemma_concat_associative(l8, seq![':'], x9);
    vstd::seq_lib::lemma_concat_associative(l9, sec, x10);
    vstd::seq_lib::lemma_concat_associative(l10, seq!['.'], x11);
    assert(l12 == l11 + x11);
    assert(r1 =~= l4);
    assert(r2 == l5);
    assert(r3 =~= l10);
    assert(r4 == l11);
    assert(r5 == l12);
}

/// The items that reading `iso_items()` goes through.
proof fn lemma_expand_iso()
    ensures
        expand(iso_items()) == seq![
            FormatItem::Component(Specifier::Year, Padding::Unpadded),
            FormatItem::Literal('-'),
            FormatItem::Component(Specifier::Month, Padding::Zero),
            FormatItem::Literal('-'),
            FormatItem::Component(Specifier::Day, Padding::Zero),
            FormatItem::Literal(' '),
            FormatItem::Component(Specifier::Hour24, Padding::Unpadded),
            FormatItem::Literal(':'),
            FormatItem::Component(Specifier::Minute, Padding::Zero),
            FormatItem::Literal(':'),
            FormatItem::Component(Specifier::Second, Padding::Zero),
            FormatItem::Literal('.'),
            FormatItem::Component(Specifier::Nanosecond, Padding::Default),
        ],
{
    let items = iso_items();
    assert(items.subrange(0, 0) =~= Seq::<FormatItem>::empty());
    assert(items.subrange(0, 1).drop_last() =~= items.subrange(0, 0));
    assert(items.subrange(0, 2).drop_last() =~= items.subrange(0, 1));
    assert(items.subrange(0, 3).drop_last() =~= items.subrange(0, 2));
    assert(items.subrange(0, 4).drop_last() =~= items.subrange(0, 3));
    assert(items.subrange(0, 5).drop_last() =~= items.subrange(0, 4));
    assert(items.subrange(0, 5) =~= items);
    let e0 = expand(items.subrange(0, 0));
    let e1 = expand(items.subrange(0, 1));
    let e2 = expand(items.subrange(0, 2));
    let e3 = expand(items.subrange(0, 3));
    let e4 = expand(items.subrange(0, 4));
    let e5 = expand(items.subrange(0, 5));
    assert(e0 == Seq::<FormatItem>::empty());
    assert(e1 == e0 + crate::parse::expand_item(items[0]));
    assert(e2 == e1 + crate::parse::expand_item(items[1]));
    assert(e3 == e2 + crate::parse::expand_item(items[2]));
    assert(e4 == e3 + crate::parse::expand_item(items[3]));
    assert(e5 == e4 + crate::parse::expand_item(items[4]));
    assert(e5 =~= seq![
        FormatItem::Component(Specifier::Year, Padding::Unpadded),
        FormatItem::Literal('-'),
        FormatItem::Component(Specifier::Month, Padding::Zero),
        FormatItem::Literal('-'),
        FormatItem::Component(Specifier::Day, Padding::Zero),
        FormatItem::Literal(' '),
        FormatItem::Component(Specifier::Hour24, Padding::Unpadded),
        FormatItem::Literal(':'),
        FormatItem::Component(Specifier::Minute, Padding::Zero),
        FormatItem::Literal(':'),
        FormatItem::Component(Specifier::Second, Padding::Zero),
        FormatItem::Literal('.'),
        FormatItem::Component(Specifier::Nanosecond, Padding::Default),
    ]);
}

/// Reading a number item back from what it wrote for `v`, followed by text
/// that does not go on with a digit, gives `v` for its component.
proof fn lemma_read_number_item(
    spec: Specifier,
    padding: Padding,
    width: nat,
    field: crate::parse::NumericField,
    v: int,
    rest: Seq<char>,
    acc: ParsedItems,
)
    requires
        crate::parse::numeric_field(spec) matches Some((f, w, _)) && f == field && w == width,
        spec != Specifier::Nanosecond,
        padding == Padding::Zero || padding == Padding::Unpadded,
        0 <= v < pow10(width),
        rest.len() == 0 || !is_digit(rest[0]),
    ensures
        read_item(
            FormatItem::Component(spec, padding),
            render_int(v, width as int, padding) + rest,
            acc,
        ) == Ok::<(ParsedItems, nat), ParseError>(
            (crate::parse::with_field(acc, field, v), render_int(v, width as int, padding).len()),
        ),
{
    lemma_read_rendered(v, width, padding, rest);
}

/// Reading nanoseconds back from the nine digits written for them.
proof fn lemma_read_nanosecond_item(v: int, rest: Seq<char>, acc: ParsedItems)
    requires
        0 <= v < 1_000_000_000,
        rest.len() == 0 || !is_digit(rest[0]),
    ensures
        read_item(
            FormatItem::Component(Specifier::Nanosecond, Padding::Default),
            render_int(v, 9, Padding::Zero) + rest,
            acc,
        ) == Ok::<(ParsedItems, nat), ParseError>(
            (
                crate::parse::with_field(acc, crate::parse::NumericField::Nanosecond, v),
                render_int(v, 9, Padding::Zero).len(),
            ),
        ),
{
    assert(pow10(9) == 1_000_000_000) by {
        reveal_with_fuel(pow10, 10);
    }
    lemma_read_rendered(v, 9, Padding::Zero, rest);
}

/// Reading an unpadded year item back from what it wrote.
proof fn lemma_read_year_item(year: int, rest: Seq<char>, acc: ParsedItems)
    requires
        -1_000_000 < year < 1_000_000,
        rest.len() == 0 || !is_digit(rest[0]),
    ensures
        read_item(
            FormatItem::Component(Specifier::Year, Padding::Unpadded),
            render_year(year, Padding::Unpadded) + rest,
            acc,
        ) == Ok::<(ParsedItems, nat), ParseError>(
            (ParsedItems { year: Some(year as i32), ..acc }, render_year(year, Padding::Unpadded).len()),
        ),
{
    lemma_read_year(year, rest);
}

/// Reading a literal character back.
proof fn lemma_read_literal_item(c: char, rest: Seq<char>, acc: ParsedItems)
    ensures
        read_item(FormatItem::Literal(c), seq![c] + rest, acc) == Ok::<(ParsedItems, nat), ParseError>(
            (acc, 1),
        ),
{
    assert((seq![c] + rest)[0] == c);
}

/// Reading the date half of the items (`%-Y-%m-%d` and a space) back from
/// what it wrote collects the year, the month and the day.
proof fn lemma_read_date_half(
    e: Seq<FormatItem>,
    y: int,
    m: int,
    d: int,
    rest: Seq<char>,
    acc: ParsedItems,
)
    requires
        e.len() >= 6,
        e[0] == FormatItem::Component(Specifier::Year, Padding::Unpadded),
        e[1] == FormatItem::Literal('-'),
        e[2] == FormatItem::Component(Specifier::Month, Padding::Zero),
        e[3] == FormatItem::Literal('-'),
        e[4] == FormatItem::Component(Specifier::Day, Padding::Zero),
        e[5] == FormatItem::Literal(' '),
        -1_000_000 < y < 1_000_000,
        0 <= m < 100,
        0 <= d < 100,
    ensures
        read_items(
            e,
            render_year(y, Padding::Unpadded) + (seq!['-'] + (render_int(m, 2, Padding::Zero) + (
            seq!['-'] + (render_int(d, 2, Padding::Zero) + (seq![' '] + rest))))),
            acc,
        ) == read_items(
            e.subrange(6, e.len() as int),
            rest,
            crate::parse::with_field(
                crate::parse::with_field(
                    ParsedItems { year: Some(y as i32), ..acc },
                    crate::parse::NumericField::Month,
                    m,
                ),
                crate::parse::NumericField::Day,
                d,
            ),
        ),
{
    assert(pow10(2) == 100) by {
        reveal_with_fuel(pow10, 3);
    }
    let ty = render_year(y, Padding::Unpadded);
    let tm = render_int(m, 2, Padding::Zero);
    let td = render_int(d, 2, Padding::Zero);
    let r5 = seq![' '] + rest;
    let r4 = td + r5;
    let r3 = seq!['-'] + r4;
    let r2 = tm + r3;
    let r1 = seq!['-'] + r2;
    let p1 = ParsedItems { year: Some(y as i32), ..acc };
    let p3 = crate::parse::with_field(p1, crate::parse::NumericField::Month, m);
    let p5 = crate::parse::with_field(p3, crate::parse::NumericField::Day, d);
    let n = e.len() as int;
    lemma_read_year_item(y, r1, acc);
    lemma_read_literal_item('-', r2, p1);
    lemma_read_number_item(Specifier::Month, Padding::Zero, 2, crate::parse::NumericField::Month, m, r3, p1);
    lemma_read_literal_item('-', r4, p3);
    lemma_read_number_item(Specifier::Day, Padding::Zero, 2, crate::parse::NumericField::Day, d, r5, p3);
    lemma_read_literal_item(' ', rest, p5);
    assert(e.subrange(0, n) =~= e);
    assert(e.subrange(0, n).drop_first() =~= e.subrange(1, n));
    assert(e.subrange(1, n).drop_first() =~= e.subrange(2, n));
    assert(e.subrange(2, n).drop_first() =~= e.subrange(3, n));
    assert(e.subrange(3, n).drop_first() =~= e.subrange(4, n));
    assert(e.subrange(4, n).drop_first() =~= e.subrange(5, n));
    assert(e.subrange(5, n).drop_first() =~= e.subrange(6, n));
    lemma_read_step(e.subrange(0, n), ty, r1, acc, p1);
    lemma_read_step(e.subrange(1, n), seq!['-'], r2, p1, p1);
    lemma_read_step(e.subrange(2, n), tm, r3, p1, p3);
    lemma_read_step(e.subrange(3, n), seq!['-'], r4, p3, p3);
    lemma_read_step(e.subrange(4, n), td, r5, p3, p5);
    lemma_read_step(e.subrange(5, n), seq![' '], rest, p5, p5);
}

/// Reading the time half of the items (`%-H:%M:%S.%N`) back from what it
/// wrote collects the hour, the minute, the second and the nanosecond.
proof fn lemma_read_time_half(
    e: Seq<FormatItem>,
    h: int,
    mi: int,
    sec: int,
    ns: int,
    acc: ParsedItems,
)
    requires
        e.len() == 7,
        e[0] == FormatItem::Component(Specifier::Hour24, Padding::Unpadded),
        e[1] == FormatItem::Literal(':'),
        e[2] == FormatItem::Component(Specifier::Minute, Padding::Zero),
        e[3] == FormatItem::Literal(':'),
        e[4] == FormatItem::Component(Specifier::Second, Padding::Zero),
        e[5] == FormatItem::Literal('.'),
        e[6] == FormatItem::Component(Specifier::Nanosecond, Padding::Default),
        0 <= h < 100,
        0 <= mi < 100,
        0 <= sec < 100,
        0 <= ns < 1_000_000_000,
    ensures
        read_items(
            e,
            render_int(h, 2, Padding::Unpadded) + (seq![':'] + (render_int(mi, 2, Padding::Zero) + (
            seq![':'] + (render_int(sec, 2, Padding::Zero) + (seq!['.'] + (render_int(
                ns,
                9,
                Padding::Zero,
            ) + Seq::<char>::empty())))))),
            acc,
        ) == Ok::<ParsedItems, ParseError>(
            crate::parse::with_field(
                crate::parse::with_field(
                    crate::parse::with_field(
                        crate::parse::with_field(acc, crate::parse::NumericField::Hour24, h),
                        crate::parse::NumericField::Minute,
                        mi,
                    ),
                    crate::parse::NumericField::Second,
                    sec,
                ),
                crate::parse::NumericField::Nanosecond,
                ns,
            ),
        ),
{
    assert(pow10(2) == 100) by {
        reveal_with_fuel(pow10, 3);
    }
    let th = render_int(h, 2, Padding::Unpadded);
    let tmi = render_int(mi, 2, Padding::Zero);
    let ts = render_int(sec, 2, Padding::Zero);
    let tn = render_int(ns, 9, Padding::Zero);
    let r7 = Seq::<char>::empty();
    let r6 = tn + r7;
    let r5 = seq!['.'] + r6;
    let r4 = ts + r5;
    let r3 = seq![':'] + r4;
    let r2 = tmi + r3;
    let r1 = seq![':'] + r2;
    let p1 = crate::parse::with_field(acc, crate::parse::NumericField::Hour24, h);
    let p3 = crate::parse::with_field(p1, crate::parse::NumericField::Minute, mi);
    let p5 = crate::parse::with_field(p3, crate::parse::NumericField::Second, sec);
    let p7 = crate::parse::with_field(p5, crate::parse::NumericField::Nanosecond, ns);
    lemma_read_number_item(Specifier::Hour24, Padding::Unpadded, 2, crate::parse::NumericField::Hour24, h, r1, acc);
    lemma_read_literal_item(':', r2, p1);
    lemma_read_number_item(Specifier::Minute, Padding::Zero, 2, crate::parse::NumericField::Minute, mi, r3, p1);
    lemma_read_literal_item(':', r4, p3);
    lemma_read_number_item(Specifier::Second, Padding::Zero, 2, crate::parse::NumericField::Second, sec, r5, p3);
    lemma_read_literal_item('.', r6, p5);
    lemma_read_nanosecond_item(ns, r7, p5);
    assert(e.subrange(0, 7) =~= e);
    assert(e.subrange(0, 7).drop_first() =~= e.subrange(1, 7));
    assert(e.subrange(1, 7).drop_first() =~= e.subrange(2, 7));
    assert(e.subrange(2, 7).drop_first() =~= e.subrange(3, 7));
    assert(e.subrange(3, 7).drop_first() =~= e.subrange(4, 7));
    assert(e.subrange(4, 7).drop_first() =~= e.subrange(5, 7));
    assert(e.subrange(5, 7).drop_first() =~= e.subrange(6, 7));
    assert(e.subrange(6, 7).drop_first() =~= Seq::<FormatItem>::empty());
    lemma_read_step(e.subrange(0, 7), th, r1, acc, p1);
    lemma_read_step(e.subrange(1, 7), seq![':'], r2, p1, p1);
    lemma_read_step(e.subrange(2, 7), tmi, r3, p1, p3);
    lemma_read_step(e.subrange(3, 7), seq![':'], r4, p3, p3);
    lemma_read_step(e.subrange(4, 7), ts, r5, p3, p5);
    lemma_read_step(e.subrange(5, 7), seq!['.'], r6, p5, p5);
    lemma_read_step(e.subrange(6, 7), tn, r7, p5, p7);
}

/// Reading with `iso_items()` what they wrote for a date-time collects
/// exactly the date-time's components.
proof fn lemma_read_iso_text(dt: PrimitiveDateTime)
    requires
        dt.inv(),
    ensures
        read_items(expand(iso_items()), render(iso_items(), dt), ParsedItems::empty_spec())
            == Ok::<ParsedItems, ParseError>(components_of(dt)),
{
    dt.lemma_valid();
    let date = dt.spec_date();
    let time = dt.spec_time();
    date.lemma_valid();
    time.lemma_valid();
    crate::parsed::lemma_ymd_round_trip(date);
    let y = date.spec_year();
    let m = date.spec_month();
    let d = date.spec_day();
    let h = time.spec_hour();
    let mi = time.spec_minute();
    let sec = time.spec_second();
    let ns = time.spec_nanosecond();
    lemma_render_iso(dt);
    lemma_expand_iso();
    let e = expand(iso_items());
    let time_text = iso_time_text(h, mi, sec, ns);
    let p0 = ParsedItems::empty_spec();
    lemma_read_date_half(e, y, m, d, time_text, p0);
    let p5 = crate::parse::with_field(
        crate::parse::with_field(
            ParsedItems { year: Some(y as i32), ..p0 },
            crate::parse::NumericField::Month,
            m,
        ),
        crate::parse::NumericField::Day,
        d,
    );
    lemma_read_time_half(e.subrange(6, 13), h, mi, sec, ns, p5);
}

/// Formatting a date-time with `%F %T.%N` and reading the text back with
/// the same description gives the date-time back: reading collects exactly
/// its components, and whatever `PrimitiveDateTime::parse` may return on
/// that text (any `r` that its contract allows) is the date-time itself.
pub proof fn lemma_format_then_parse(dt: PrimitiveDateTime, r: Result<PrimitiveDateTime, ParseError>)
    requires
        dt.inv(),
        match r {
            Ok(x) => x.inv(),
            Err(_) => true,
        },
        match parse_spec(render(parse_format_spec("%F %T.%N"@).unwrap(), dt), "%F %T.%N"@) {
            Ok(p) => outcome_matches(r, p),
            Err(e) => r == Err::<PrimitiveDateTime, ParseError>(e),
        },
    ensures
        parse_spec(render(parse_format_spec("%F %T.%N"@).unwrap(), dt), "%F %T.%N"@) == Ok::<
            ParsedItems,
            ParseError,
        >(components_of(dt)),
        r == Ok::<PrimitiveDateTime, ParseError>(dt),
{
    lemma_iso_description();
    lemma_read_iso_text(dt);
    lemma_components_round_trip(dt, r);
}

/// The items of the format description `%F %T`.
pub open spec fn iso_seconds_items() -> Seq<FormatItem> {
    seq![
        FormatItem::Component(Specifier::IsoDate, Padding::Default),
        FormatItem::Literal(' '),
        FormatItem::Component(Specifier::Time24, Padding::Default),
    ]
}

/// The format description `%F %T` holds the items `iso_seconds_items()`.
pub proof fn lemma_iso_seconds_description()
    ensures
        parse_format_spec("%F %T"@) == Some(iso_seconds_items()),
{
    reveal_strlit("%F %T");
    let s = "%F %T"@;
    assert(s.subrange(5, 5) =~= Seq::<char>::empty());
    assert(s.subrange(3, 5).subrange(2, 2) =~= s.subrange(5, 5));
    assert(s.subrange(2, 5).drop_first() =~= s.subrange(3, 5));
    assert(s.subrange(2, s.len() as int) =~= s.subrange(2, 5));
    assert(parse_format_spec(s.subrange(5, 5)) == Some(Seq::<FormatItem>::empty()));
    assert(parse_format_spec(s.subrange(3, 5)) == Some(iso_seconds_items().subrange(2, 3)));
    assert(parse_format_spec(s.subrange(2, 5)) == Some(iso_seconds_items().subrange(1, 3)));
    assert(parse_format_spec(s) == Some(iso_seconds_items()));
}

/// The time of day as `%T` writes it.
pub open spec fn hms_text(h: int, mi: int, sec: int) -> Seq<char> {
    render_int(h, 2, Padding::Unpadded) + (seq![':'] + (render_int(mi, 2, Padding::Zero) + (seq![':']
        + (render_int(sec, 2, Padding::Zero) + Seq::<char>::empty()))))
}

/// What `iso_seconds_items()` write for a date-time, piece by piece.
proof fn lemma_render_iso_seconds(dt: PrimitiveDateTime)
    ensures
        ({
            let date = dt.spec_date();
            let time = dt.spec_time();
            render(iso_seconds_items(), dt) == render_year(date.spec_year(), Padding::Unpadded) + (
            seq!['-'] + (render_int(date.spec_month(), 2, Padding::Zero) + (seq!['-'] + (render_int(
                date.spec_day(),
                2,
                Padding::Zero,
            ) + (seq![' '] + hms_text(time.spec_hour(), time.spec_minute(), time.spec_second()))))))
        }),
{
    let items = iso_seconds_items();
    assert(items.subrange(0, 0) =~= Seq::<FormatItem>::empty());
    assert(items.subrange(0, 1).drop_last() =~= items.subrange(0, 0));
    assert(items.subrange(0, 2).drop_last() =~= items.subrange(0, 1));
    assert(items.subrange(0, 3).drop_last() =~= items.subrange(0, 2));
    assert(items.subrange(0, 3) =~= items);
    let r0 = render(items.subrange(0, 0), dt);
    let r1 = render(items.subrange(0, 1), dt);
    let r2 = render(items.subrange(0, 2), dt);
    let r3 = render(items.subrange(0, 3), dt);
    assert(r0 == Seq::<char>::empty());
    assert(r1 == r0 + crate::format::render_item(items[0], dt));
    assert(r2 == r1 + crate::format::render_item(items[1], dt));
    assert(r3 == r2 + crate::format::render_item(items[2], dt));
    let date = dt.spec_date();
    let time = dt.spec_time();
    let a = render_year(date.spec_year(), Padding::Unpadded);
    let m = render_int(date.spec_month(), 2, Padding::Zero);
    let d = render_int(date.spec_day(), 2, Padding::Zero);
    let h = render_int(time.spec_hour(), 2, Padding::Unpadded);
    let mi = render_int(time.spec_minute(), 2, Padding::Zero);
    let sec = render_int(time.spec_second(), 2, Padding::Zero);
    let x9 = sec + Seq::<char>::empty();
    let x8 = seq![':'] + x9;
    let x7 = mi + x8;
    let x6 = seq![':'] + x7;
    let x5 = h + x6;
    let x4 = seq![' '] + x5;
    let x3 = d + x4;
    let x2 = seq!['-'] + x3;
    let x1 = m + x2;
    assert(x9 =~= sec);
    let l1 = a + seq!['-'];
    let l2 = l1 + m;
    let l3 = l2 + seq!['-'];
    let l4 = l3 + d;
    let l5 = l4 + seq![' '];
    let l6 = l5 + h;
    let l7 = l6 + seq![':'];
    let l8 = l7 + mi;
    let l9 = l8 + seq![':'];
    let l10 = l9 + sec;
    vstd::seq_lib::lemma_concat_associative(a, seq!['-'], x1);
    vstd::seq_lib::lemma_concat_associative(l1, m, x2);
    vstd::seq_lib::lemma_concat_associative(l2, seq!['-'], x3);
    vstd::seq_lib::lemma_concat_associative(l3, d, x4);
    vstd::seq_lib::lemma_concat_associative(l4, seq![' '], x5);
    vstd::seq_lib::lemma_concat_associative(l5, h, x6);
    vstd::seq_lib::lemma_concat_associative(l6, seq![':'], x7);
    vstd::seq_lib::lemma_concat_associative(l7, mi, x8);
    vstd::seq_lib::lemma_concat_associative(l8, seq![':'], x9);
    assert(l10 == l9 + x9);
    assert(r1 =~= l4);
    assert(r2 == l5);
    assert(r3 =~= l10);
}

/// The items that reading `iso_seconds_items()` goes through.
proof fn lemma_expand_iso_seconds()
    ensures
        expand(iso_seconds_items()) == seq![
            FormatItem::Component(Specifier::Year, Padding::Unpadded),
            FormatItem::Literal('-'),
            FormatItem::Component(Specifier::Month, Padding::Zero),
            FormatItem::Literal('-'),
            FormatItem::Component(Specifier::Day, Padding::Zero),
            FormatItem::Literal(' '),
            FormatItem::Component(Specifier::Hour24, Padding::Unpadded),
            FormatItem::Literal(':'),
            FormatItem::Component(Specifier::Minute, Padding::Zero),
            FormatItem::Literal(':'),
            FormatItem::Component(Specifier::Second, Padding::Zero),
        ],
{
    let items = iso_seconds_items();
    assert(items.subrange(0, 0) =~= Seq::<FormatItem>::empty());
    assert(items.subrange(0, 1).drop_last() =~= items.subrange(0, 0));
    assert(items.subrange(0, 2).drop_last() =~= items.subrange(0, 1));
    assert(items.subrange(0, 3).drop_last() =~= items.subrange(0, 2));
    assert(items.subrange(0, 3) =~= items);
    let e0 = expand(items.subrange(0, 0));
    let e1 = expand(items.subrange(0, 1));
    let e2 = expand(items.subrange(0, 2));
    let e3 = expand(items.subrange(0, 3));
    assert(e0 == Seq::<FormatItem>::empty());
    assert(e1 == e0 + crate::parse::expand_item(items[0]));
    assert(e2 == e1 + crate::parse::expand_item(items[1]));
    assert(e3 == e2 + crate::parse::expand_item(items[2]));
    assert(e3 =~= seq![
        FormatItem::Component(Specifier::Year, Padding::Unpadded),
        FormatItem::Literal('-'),
        FormatItem::Component(Specifier::Month, Padding::Zero),
        FormatItem::Literal('-'),
        FormatItem::Component(Specifier::Day, Padding::Zero),
        FormatItem::Literal(' '),
        FormatItem::Component(Specifier::Hour24, Padding::Unpadded),
        FormatItem::Literal(':'),
        FormatItem::Component(Specifier::Minute, Padding::Zero),
        FormatItem::Literal(':'),
        FormatItem::Component(Specifier::Second, Padding::Zero),
    ]);
}

/// Reading `%-H:%M:%S` back from what it wrote collects the hour, the
/// minute and the second.
proof fn lemma_read_hms(e: Seq<FormatItem>, h: int, mi: int, sec: int, acc: ParsedItems)
    requires
        e.len() == 5,
        e[0] == FormatItem::Component(Specifier::Hour24, Padding::Unpadded),
        e[1] == FormatItem::Literal(':'),
        e[2] == FormatItem::Component(Specifier::Minute, Padding::Zero),
        e[3] == FormatItem::Literal(':'),
        e[4] == FormatItem::Component(Specifier::Second, Padding::Zero),
        0 <= h < 100,
        0 <= mi < 100,
        0 <= sec < 100,
    ensures
        read_items(e, hms_text(h, mi, sec), acc) == Ok::<ParsedItems, ParseError>(
            crate::parse::with_field(
                crate::parse::with_field(
                    crate::parse::with_field(acc, crate::parse::NumericField::Hour24, h),
                    crate::parse::NumericField::Minute,
                    mi,
                ),
                crate::parse::NumericField::Second,
                sec,
            ),
        ),
{
    assert(pow10(2) == 100) by {
        reveal_with_fuel(pow10, 3);
    }
    let th = render_int(h, 2, Padding::Unpadded);
    let tmi = render_int(mi, 2, Padding::Zero);
    let ts = render_int(sec, 2, Padding::Zero);
    let r5 = Seq::<char>::empty();
    let r4 = ts + r5;
    let r3 = seq![':'] + r4;
    let r2 = tmi + r3;
    let r1 = seq![':'] + r2;
    let p1 = crate::parse::with_field(acc, crate::parse::NumericField::Hour24, h);
    let p3 = crate::parse::with_field(p1, crate::parse::NumericField::Minute, mi);
    let p5 = crate::parse::with_field(p3, crate::parse::NumericField::Second, sec);
    lemma_read_number_item(Specifier::Hour24, Padding::Unpadded, 2, crate::parse::NumericField::Hour24, h, r1, acc);
    lemma_read_literal_item(':', r2, p1);
    lemma_read_number_item(Specifier::Minute, Padding::Zero, 2, crate::parse::NumericField::Minute, mi, r3, p1);
    lemma_read_literal_item(':', r4, p3);
    lemma_read_number_item(Specifier::Second, Padding::Zero, 2, crate::parse::NumericField::Second, sec, r5, p3);
    assert(e.subrange(0, 5) =~= e);
    assert(e.subrange(0, 5).drop_first() =~= e.subrange(1, 5));
    assert(e.subrange(1, 5).drop_first() =~= e.subrange(2, 5));
    assert(e.subrange(2, 5).drop_first() =~= e.subrange(3, 5));
    assert(e.subrange(3, 5).drop_first() =~= e.subrange(4, 5));
    assert(e.subrange(4, 5).drop_first() =~= Seq::<FormatItem>::empty());
    lemma_read_step(e.subrange(0, 5), th, r1, acc, p1);
    lemma_read_step(e.subrange(1, 5), seq![':'], r2, p1, p1);
    lemma_read_step(e.subrange(2, 5), tmi, r3, p1, p3);
    lemma_read_step(e.subrange(3, 5), seq![':'], r4, p3, p3);
    lemma_read_step(e.subrange(4, 5), ts, r5, p3, p5);
}

/// Reading with `iso_seconds_items()` what they wrote for a date-time
/// collects its components but for the nanosecond, which `%T` does not write.
proof fn lemma_read_iso_seconds_text(dt: PrimitiveDateTime)
    requires
        dt.inv(),
    ensures
        read_items(
            expand(iso_seconds_items()),
            render(iso_seconds_items(), dt),
            ParsedItems::empty_spec(),
        ) == Ok::<ParsedItems, ParseError>(ParsedItems { nanosecond: None, ..components_of(dt) }),
{
    dt.lemma_valid();
    let date = dt.spec_date();
    let time = dt.spec_time();
    date.lemma_valid();
    time.lemma_valid();
    crate::parsed::lemma_ymd_round_trip(date);
    let y = date.spec_year();
    let m = date.spec_month();
    let d = date.spec_day();
    let h = time.spec_hour();
    let mi = time.spec_minute();
    let sec = time.spec_second();
    lemma_render_iso_seconds(dt);
    lemma_expand_iso_seconds();
    let e = expand(iso_seconds_items());
    let p0 = ParsedItems::empty_spec();
    lemma_read_date_half(e, y, m, d, hms_text(h, mi, sec), p0);
    let p5 = crate::parse::with_field(
        crate::parse::with_field(
            ParsedItems { year: Some(y as i32), ..p0 },
            crate::parse::NumericField::Month,
            m,
        ),
        crate::parse::NumericField::Day,
        d,
    );
    lemma_read_hms(e.subrange(6, 11), h, mi, sec, p5);
}

/// Formatting a date-time on a whole second with `%F %T` and reading the
/// text back with the same description gives the date-time back: whatever
/// `PrimitiveDateTime::parse` may return on that text (any `r` that its
/// contract allows) is the date-time itself.
pub proof fn lemma_format_then_parse_seconds(
    dt: PrimitiveDateTime,
    r: Result<PrimitiveDateTime, ParseError>,
)
    requires
        dt.inv(),
        dt.spec_time().spec_nanosecond() == 0,
        match r {
            Ok(x) => x.inv(),
            Err(_) => true,
        },
        match parse_spec(render(parse_format_spec("%F %T"@).unwrap(), dt), "%F %T"@) {
            Ok(p) => outcome_matches(r, p),
            Err(e) => r == Err::<PrimitiveDateTime, ParseError>(e),
        },
    ensures
        r == Ok::<PrimitiveDateTime, ParseError>(dt),
{
    lemma_iso_seconds_description();
    lemma_read_iso_seconds_text(dt);
    let p = ParsedItems { nanosecond: None, ..components_of(dt) };
    dt.lemma_valid();
    dt.spec_date().lemma_valid();
    dt.spec_time().lemma_valid();
    crate::parsed::lemma_ymd_round_trip(dt.spec_date());
    assert(crate::parsed::date_of_items(p) == Ok::<int, ParseError>(dt.spec_date().days()));
    assert(outcome_matches(Ok(dt), p));
    crate::parsed::lemma_outcome_unique(dt, r, p);
}

} // verus!
