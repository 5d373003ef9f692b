//! Properties of the library stated over its specifications and proved.

use vstd::prelude::*;

use crate::clock::{fields_minutes, reads_moment};
use crate::objects_of_controllers::{parts_present, write_rank, EquipmentPart};
use crate::models::{
    insert_settings_sql, insert_statement, join_with, settings_columns, settings_from_row, update_settings_sql,
    update_statement, written_row,empty_info, error_line_text, info_is_empty, status_of, AzsDb, MysqlInfoView, TypesStatus};
use crate::station::{
    last_tank_index, last_tovar_index, lemma_last_tank_index, lemma_last_tovar_index, parse_tanks_detail,
    parse_tovar_detail, pist_template,
    resolve_pist, resolve_pists, resolve_trks, Pist, PistTemplateView, Tank, Tovar, Trk,
};
use crate::text::{datetime_text, int_text, digit_char, fixed_digits, nat_text, pad2_text, pow10, text_lt};

verus! {

/// The value of a decimal digit character.
pub open spec fn digit_value(c: char) -> int {
    if c == '1' { 1 }
    else if c == '2' { 2 }
    else if c == '3' { 3 }
    else if c == '4' { 4 }
    else if c == '5' { 5 }
    else if c == '6' { 6 }
    else if c == '7' { 7 }
    else if c == '8' { 8 }
    else if c == '9' { 9 }
    else { 0 }
}

/// A character is a decimal digit.
pub open spec fn is_digit(c: char) -> bool {
    c == '0' || c == '1' || c == '2' || c == '3' || c == '4' || c == '5' || c == '6' || c == '7'
        || c == '8' || c == '9'
}

/// The number that a text of decimal digits denotes.
pub open spec fn decimal_value(s: Seq<char>) -> int
    decreases s.len(),
{
    if s.len() == 0 {
        0
    } else {
        decimal_value(s.drop_last()) * 10 + digit_value(s.last())
    }
}

/// The decimal text of a number is made of digits, has no leading zero, and
/// reads back as the number.
pub proof fn law_decimal_text_reads_back(n: nat)
    ensures
        nat_text(n).len() >= 1,
        forall|i: int| 0 <= i < nat_text(n).len() ==> is_digit(#[trigger] nat_text(n)[i]),
        n != 0 ==> nat_text(n)[0] != '0',
        decimal_value(nat_text(n)) == n,
    decreases n,
{
    if n < 10 {
        assert(nat_text(n).drop_last() =~= Seq::<char>::empty());
        assert(decimal_value(Seq::<char>::empty()) == 0);
    } else {
        law_decimal_text_reads_back(n / 10);
        let s = nat_text(n);
        assert(s.drop_last() =~= nat_text(n / 10));
        assert(s.last() == digit_char((n % 10) as int));
        assert(digit_value(digit_char((n % 10) as int)) == n % 10);
        assert(decimal_value(s) == decimal_value(nat_text(n / 10)) * 10 + digit_value(s.last()));
        assert(s[0] == nat_text(n / 10)[0]);
        assert forall|i: int| 0 <= i < s.len() implies is_digit(#[trigger] s[i]) by {
            if i < s.len() - 1 {
                assert(s[i] == nat_text(n / 10)[i]);
            }
        }
        assert((n / 10) * 10 + n % 10 == n) by (nonlinear_arith);
    }
}

/// The length of the decimal text of a number below 10000.
pub proof fn law_decimal_text_length(n: nat)
    ensures
        n < 10 ==> nat_text(n).len() == 1,
        10 <= n < 100 ==> nat_text(n).len() == 2,
        100 <= n < 1000 ==> nat_text(n).len() == 3,
        1000 <= n < 10000 ==> nat_text(n).len() == 4,
    decreases n,
{
    if n >= 10 {
        law_decimal_text_length(n / 10);
    }
}

/// Two-digit fields are always two characters long below 100, and read back
/// as their value.
pub proof fn law_pad2_text(n: nat)
    requires
        n < 100,
    ensures
        pad2_text(n).len() == 2,
        decimal_value(pad2_text(n)) == n,
{
    law_decimal_text_length(n);
    law_decimal_text_reads_back(n);
    if n < 10 {
        let s = pad2_text(n);
        assert(s.drop_last() =~= seq!['0']);
        assert(seq!['0'].drop_last() =~= Seq::<char>::empty());
        assert(decimal_value(Seq::<char>::empty()) == 0);
        assert(decimal_value(seq!['0']) == 0);
        assert(nat_text(n).drop_last() =~= Seq::<char>::empty());
    }
}

/// For a four-digit year and a valid clock reading the timestamp has the fixed
/// layout `YYYY-MM-DD HH:MM`: sixteen characters, with the separators in place.
pub proof fn law_timestamp_layout(year: int, month: nat, day: nat, hour: nat, minute: nat)
    requires
        1000 <= year <= 9999,
        1 <= month <= 12,
        1 <= day <= 31,
        hour <= 23,
        minute <= 59,
    ensures
        datetime_text(year, month, day, hour, minute).len() == 16,
        datetime_text(year, month, day, hour, minute)[4] == '-',
        datetime_text(year, month, day, hour, minute)[7] == '-',
        datetime_text(year, month, day, hour, minute)[10] == ' ',
        datetime_text(year, month, day, hour, minute)[13] == ':',
{
    law_decimal_text_length(year as nat);
    law_pad2_text(month);
    law_pad2_text(day);
    law_pad2_text(hour);
    law_pad2_text(minute);
    let t = datetime_text(year, month, day, hour, minute);
    assert(t =~= nat_text(year as nat) + seq!['-'] + pad2_text(month) + seq!['-'] + pad2_text(day)
        + seq![' '] + pad2_text(hour) + seq![':'] + pad2_text(minute));
}

/// Digit characters are ordered as their values.
pub proof fn lemma_digit_char_order(d1: int, d2: int)
    requires
        0 <= d1 < d2 < 10,
    ensures
        (digit_char(d1) as u32) < (digit_char(d2) as u32),
{
}

/// The decimal text of a number with exactly `w` digits is its `w` last digits.
pub proof fn lemma_nat_text_fixed(n: nat, w: nat)
    requires
        w >= 1,
        n < pow10(w),
        w == 1 || n >= pow10((w - 1) as nat),
    ensures
        nat_text(n) == fixed_digits(n, w),
    decreases w,
{
    lemma_small_pow10();
    if w == 1 {
        assert(fixed_digits(n / 10, 0) =~= Seq::<char>::empty());
        assert(n % 10 == n);
        assert(n / 10 == 0);
        assert(fixed_digits(n, 1) =~= seq![digit_char((n % 10) as int)]);
        assert(nat_text(n) =~= seq![digit_char(n as int)]);
    } else {
        let p = pow10((w - 1) as nat);
        assert(pow10(w) == 10 * p);
        if w >= 3 {
            let q = pow10((w - 2) as nat);
            assert(p == 10 * q);
            assert(n / 10 >= q) by (nonlinear_arith)
                requires n >= 10 * q;
        }
        assert(n / 10 < p) by (nonlinear_arith)
            requires n < 10 * p;
        assert(n >= 10) by {
            if w >= 3 {
                assert(pow10((w - 2) as nat) >= 1) by { lemma_pow10_positive((w - 2) as nat); }
            }
        }
        lemma_nat_text_fixed(n / 10, (w - 1) as nat);
        assert(nat_text(n) == nat_text(n / 10).push(digit_char((n % 10) as int)));
        assert(fixed_digits(n, w) == fixed_digits(n / 10, (w - 1) as nat).push(digit_char((n % 10) as int)));
    }
}

/// Powers of ten are positive.
pub proof fn lemma_pow10_positive(w: nat)
    ensures
        pow10(w) >= 1,
    decreases w,
{
    if w > 0 {
        lemma_pow10_positive((w - 1) as nat);
    }
}

/// The powers of ten up to four.
pub proof fn lemma_small_pow10()
    ensures
        pow10(1) == 10,
        pow10(2) == 100,
        pow10(3) == 1000,
        pow10(4) == 10000,
{
    assert(pow10(0) == 1);
    assert(pow10(1) == 10);
    assert(pow10(2) == 100);
    assert(pow10(3) == 1000);
    assert(pow10(4) == 10000);
}

/// `w` fixed digits are `w` characters long.
pub proof fn lemma_fixed_digits_len(n: nat, w: nat)
    ensures
        fixed_digits(n, w).len() == w,
    decreases w,
{
    if w > 0 {
        lemma_fixed_digits_len(n / 10, (w - 1) as nat);
    }
}

/// Extending two texts of equal length that are in order keeps them in order.
pub proof fn lemma_text_lt_extend(a: Seq<char>, b: Seq<char>, c: Seq<char>, d: Seq<char>)
    requires
        a.len() == b.len(),
        text_lt(a, b),
    ensures
        text_lt(a + c, b + d),
{
    let k = choose|k: int| 0 <= k < a.len() && k < b.len() && a.take(k) == b.take(k) && (#[trigger] a[k] as u32) < (b[k] as u32);
    assert((a + c).take(k) =~= a.take(k));
    assert((b + d).take(k) =~= b.take(k));
    assert((a + c)[k] == a[k]);
    assert((b + d)[k] == b[k]);
}

/// A common start does not change the order of two texts of equal length.
pub proof fn lemma_text_lt_prefix(p: Seq<char>, c: Seq<char>, d: Seq<char>)
    requires
        c.len() == d.len(),
        text_lt(c, d),
    ensures
        text_lt(p + c, p + d),
{
    let k = choose|k: int| 0 <= k < c.len() && k < d.len() && c.take(k) == d.take(k) && (#[trigger] c[k] as u32) < (d[k] as u32);
    let j = p.len() + k;
    assert((p + c).take(j) =~= p + c.take(k));
    assert((p + d).take(j) =~= p + d.take(k));
    assert((p + c)[j] == c[k]);
    assert((p + d)[j] == d[k]);
}

/// Fixed-width digits order as the numbers they show.
pub proof fn lemma_fixed_digits_order(x: nat, y: nat, w: nat)
    requires
        x < y < pow10(w),
    ensures
        text_lt(fixed_digits(x, w), fixed_digits(y, w)),
    decreases w,
{
    lemma_fixed_digits_len(x, w);
    lemma_fixed_digits_len(y, w);
    if w == 0 {
        assert(false);
    } else {
        let p = pow10((w - 1) as nat);
        assert(pow10(w) == 10 * p);
        assert(y / 10 < p) by (nonlinear_arith)
            requires y < 10 * p;
        assert(x / 10 <= y / 10) by (nonlinear_arith)
            requires x < y;
        let fx = fixed_digits(x / 10, (w - 1) as nat);
        let fy = fixed_digits(y / 10, (w - 1) as nat);
        lemma_fixed_digits_len(x / 10, (w - 1) as nat);
        lemma_fixed_digits_len(y / 10, (w - 1) as nat);
        if x / 10 < y / 10 {
            lemma_fixed_digits_order(x / 10, y / 10, (w - 1) as nat);
            lemma_text_lt_extend(fx, fy, seq![digit_char((x % 10) as int)], seq![digit_char((y % 10) as int)]);
            assert(fixed_digits(x, w) =~= fx + seq![digit_char((x % 10) as int)]);
            assert(fixed_digits(y, w) =~= fy + seq![digit_char((y % 10) as int)]);
        } else {
            assert(x % 10 < y % 10) by (nonlinear_arith)
                requires x < y, x / 10 == y / 10;
            lemma_digit_char_order((x % 10) as int, (y % 10) as int);
            let k = (w - 1) as int;
            assert(fixed_digits(x, w).take(k) =~= fx);
            assert(fixed_digits(y, w).take(k) =~= fy);
            assert(fixed_digits(x, w)[k] == digit_char((x % 10) as int));
            assert(fixed_digits(y, w)[k] == digit_char((y % 10) as int));
        }
    }
}

/// Two-digit fields are their two last digits.
pub proof fn lemma_pad2_fixed(n: nat)
    requires
        n < 100,
    ensures
        pad2_text(n) == fixed_digits(n, 2),
{
    lemma_small_pow10();
    if n < 10 {
        assert(fixed_digits(n / 10, 1) =~= seq![digit_char(0)]) by {
            assert(fixed_digits(0, 0) =~= Seq::<char>::empty());
        }
        assert(pad2_text(n) =~= fixed_digits(n, 2));
    } else {
            lemma_nat_text_fixed(n, 2);
    }
}

/// Readings ordered field by field, most significant first.
pub open spec fn reading_lt(
    y1: int, mo1: nat, d1: nat, h1: nat, mi1: nat,
    y2: int, mo2: nat, d2: nat, h2: nat, mi2: nat,
) -> bool {
    ||| y1 < y2
    ||| y1 == y2 && mo1 < mo2
    ||| y1 == y2 && mo1 == mo2 && d1 < d2
    ||| y1 == y2 && mo1 == mo2 && d1 == d2 && h1 < h2
    ||| y1 == y2 && mo1 == mo2 && d1 == d2 && h1 == h2 && mi1 < mi2
}

/// Timestamps of four-digit years order as the moments they show: a later
/// reading (to the minute) gives a text that comes later character by
/// character, and the same reading gives the same text. So the log lines of a
/// clock that does not go back are in order as texts.
pub proof fn law_timestamps_order_as_moments(
    y1: int, mo1: nat, d1: nat, h1: nat, mi1: nat,
    y2: int, mo2: nat, d2: nat, h2: nat, mi2: nat,
)
    requires
        1000 <= y1 <= 9999,
        1000 <= y2 <= 9999,
        mo1 < 100, d1 < 100, h1 < 100, mi1 < 100,
        mo2 < 100, d2 < 100, h2 < 100, mi2 < 100,
    ensures
        reading_lt(y1, mo1, d1, h1, mi1, y2, mo2, d2, h2, mi2)
            ==> text_lt(datetime_text(y1, mo1, d1, h1, mi1), datetime_text(y2, mo2, d2, h2, mi2)),
        (y1 == y2 && mo1 == mo2 && d1 == d2 && h1 == h2 && mi1 == mi2)
            ==> datetime_text(y1, mo1, d1, h1, mi1) == datetime_text(y2, mo2, d2, h2, mi2),
{
    lemma_small_pow10();
    lemma_nat_text_fixed(y1 as nat, 4);
    lemma_nat_text_fixed(y2 as nat, 4);
    lemma_pad2_fixed(mo1); lemma_pad2_fixed(mo2);
    lemma_pad2_fixed(d1); lemma_pad2_fixed(d2);
    lemma_pad2_fixed(h1); lemma_pad2_fixed(h2);
    lemma_pad2_fixed(mi1); lemma_pad2_fixed(mi2);
    let ya = fixed_digits(y1 as nat, 4);
    let yb = fixed_digits(y2 as nat, 4);
    let ma = fixed_digits(mo1, 2);
    let mb = fixed_digits(mo2, 2);
    let da = fixed_digits(d1, 2);
    let db = fixed_digits(d2, 2);
    let ha = fixed_digits(h1, 2);
    let hb = fixed_digits(h2, 2);
    let ia = fixed_digits(mi1, 2);
    let ib = fixed_digits(mi2, 2);
    lemma_fixed_digits_len(y1 as nat, 4); lemma_fixed_digits_len(y2 as nat, 4);
    lemma_fixed_digits_len(mo1, 2); lemma_fixed_digits_len(mo2, 2);
    lemma_fixed_digits_len(d1, 2); lemma_fixed_digits_len(d2, 2);
    lemma_fixed_digits_len(h1, 2); lemma_fixed_digits_len(h2, 2);
    lemma_fixed_digits_len(mi1, 2); lemma_fixed_digits_len(mi2, 2);
    let t1 = datetime_text(y1, mo1, d1, h1, mi1);
    let t2 = datetime_text(y2, mo2, d2, h2, mi2);
    assert(int_text(y1) == nat_text(y1 as nat));
    assert(int_text(y2) == nat_text(y2 as nat));
    let sd = seq!['-'];
    let ss = seq![' '];
    let sc = seq![':'];
    // The tails that follow each field.
    let ia_t = ia;
    let ib_t = ib;
    let ha_t = ha + sc + ia_t;
    let hb_t = hb + sc + ib_t;
    let da_t = da + ss + ha_t;
    let db_t = db + ss + hb_t;
    let ma_t = ma + sd + da_t;
    let mb_t = mb + sd + db_t;
    assert(t1 =~= ya + (sd + ma_t));
    assert(t2 =~= yb + (sd + mb_t));
    if y1 < y2 {
        lemma_fixed_digits_order(y1 as nat, y2 as nat, 4);
        lemma_text_lt_extend(ya, yb, sd + ma_t, sd + mb_t);
    } else if y1 == y2 && mo1 < mo2 {
        lemma_fixed_digits_order(mo1, mo2, 2);
        lemma_text_lt_extend(ma, mb, sd + da_t, sd + db_t);
        lemma_text_lt_prefix(ya + sd, ma + (sd + da_t), mb + (sd + db_t));
        assert(t1 =~= (ya + sd) + (ma + (sd + da_t)));
        assert(t2 =~= (ya + sd) + (mb + (sd + db_t)));
    } else if y1 == y2 && mo1 == mo2 && d1 < d2 {
        let p = ya + sd + ma + sd;
        lemma_fixed_digits_order(d1, d2, 2);
        lemma_text_lt_extend(da, db, ss + ha_t, ss + hb_t);
        lemma_text_lt_prefix(p, da + (ss + ha_t), db + (ss + hb_t));
        assert(t1 =~= p + (da + (ss + ha_t)));
        assert(t2 =~= p + (db + (ss + hb_t)));
    } else if y1 == y2 && mo1 == mo2 && d1 == d2 && h1 < h2 {
        let p = ya + sd + ma + sd + da + ss;
        lemma_fixed_digits_order(h1, h2, 2);
        lemma_text_lt_extend(ha, hb, sc + ia_t, sc + ib_t);
        lemma_text_lt_prefix(p, ha + (sc + ia_t), hb + (sc + ib_t));
        assert(t1 =~= p + (ha + (sc + ia_t)));
        assert(t2 =~= p + (hb + (sc + ib_t)));
    } else if y1 == y2 && mo1 == mo2 && d1 == d2 && h1 == h2 && mi1 < mi2 {
        let p = ya + sd + ma + sd + da + ss + ha + sc;
        lemma_fixed_digits_order(mi1, mi2, 2);
        lemma_text_lt_prefix(p, ia, ib);
        assert(t1 =~= p + ia);
        assert(t2 =~= p + ib);
    }
}

/// The decimal text of an integer, sign included, names one integer only.
pub proof fn lemma_int_text_injective(y1: int, y2: int)
    ensures
        int_text(y1) == int_text(y2) ==> y1 == y2,
{
    let n1: nat = if y1 < 0 { (-y1) as nat } else { y1 as nat };
    let n2: nat = if y2 < 0 { (-y2) as nat } else { y2 as nat };
    law_decimal_text_reads_back(n1);
    law_decimal_text_reads_back(n2);
    if int_text(y1) == int_text(y2) {
        if y1 < 0 && y2 < 0 {
            assert(nat_text(n1) =~= int_text(y1).subrange(1, int_text(y1).len() as int));
            assert(nat_text(n2) =~= int_text(y2).subrange(1, int_text(y2).len() as int));
        } else if y1 < 0 {
            assert(int_text(y1)[0] == '-');
            assert(is_digit(nat_text(n2)[0]));
        } else if y2 < 0 {
            assert(int_text(y2)[0] == '-');
            assert(is_digit(nat_text(n1)[0]));
        }
    }
}

/// A timestamp reads back as the calendar fields it was written from: two
/// readings (each field of two digits at most) give the same text only when
/// they are the same reading.
pub proof fn law_timestamp_names_one_reading(
    y1: int, mo1: nat, d1: nat, h1: nat, mi1: nat,
    y2: int, mo2: nat, d2: nat, h2: nat, mi2: nat,
)
    requires
        mo1 < 100, d1 < 100, h1 < 100, mi1 < 100,
        mo2 < 100, d2 < 100, h2 < 100, mi2 < 100,
    ensures
        datetime_text(y1, mo1, d1, h1, mi1) == datetime_text(y2, mo2, d2, h2, mi2)
            ==> y1 == y2 && mo1 == mo2 && d1 == d2 && h1 == h2 && mi1 == mi2,
{
    if datetime_text(y1, mo1, d1, h1, mi1) == datetime_text(y2, mo2, d2, h2, mi2) {
        law_pad2_text(mo1); law_pad2_text(mo2);
        law_pad2_text(d1); law_pad2_text(d2);
        law_pad2_text(h1); law_pad2_text(h2);
        law_pad2_text(mi1); law_pad2_text(mi2);
        let t = datetime_text(y1, mo1, d1, h1, mi1);
        let a1 = int_text(y1);
        let a2 = int_text(y2);
        let tail1 = seq!['-'] + pad2_text(mo1) + seq!['-'] + pad2_text(d1) + seq![' '] + pad2_text(h1)
            + seq![':'] + pad2_text(mi1);
        let tail2 = seq!['-'] + pad2_text(mo2) + seq!['-'] + pad2_text(d2) + seq![' '] + pad2_text(h2)
            + seq![':'] + pad2_text(mi2);
        assert(t =~= a1 + tail1);
        assert(t =~= a2 + tail2);
        assert(tail1.len() == 12 && tail2.len() == 12);
        assert(a1 =~= t.subrange(0, a1.len() as int));
        assert(a2 =~= t.subrange(0, a2.len() as int));
        assert(tail1 =~= t.subrange(a1.len() as int, t.len() as int));
        assert(tail2 =~= t.subrange(a2.len() as int, t.len() as int));
        lemma_int_text_injective(y1, y2);
        assert(pad2_text(mo1) =~= tail1.subrange(1, 3));
        assert(pad2_text(mo2) =~= tail2.subrange(1, 3));
        assert(pad2_text(d1) =~= tail1.subrange(4, 6));
        assert(pad2_text(d2) =~= tail2.subrange(4, 6));
        assert(pad2_text(h1) =~= tail1.subrange(7, 9));
        assert(pad2_text(h2) =~= tail2.subrange(7, 9));
        assert(pad2_text(mi1) =~= tail1.subrange(10, 12));
        assert(pad2_text(mi2) =~= tail2.subrange(10, 12));
    }
}

/// The time shown for a moment names that moment to within two days: valid
/// local readings of two moments that show the same text belong to moments
/// less than two days and a minute apart. A text shown for one moment is
/// never the text of a moment far from it.
pub proof fn law_shown_time_names_its_moment(
    f1: (i32, u32, u32, u32, u32),
    secs1: int,
    f2: (i32, u32, u32, u32, u32),
    secs2: int,
)
    requires
        reads_moment(f1, secs1),
        reads_moment(f2, secs2),
        datetime_text(f1.0 as int, f1.1 as nat, f1.2 as nat, f1.3 as nat, f1.4 as nat)
            == datetime_text(f2.0 as int, f2.1 as nat, f2.2 as nat, f2.3 as nat, f2.4 as nat),
    ensures
        f1 == f2,
        secs1 - secs2 < 172860,
        secs2 - secs1 < 172860,
{
    law_timestamp_names_one_reading(
        f1.0 as int, f1.1 as nat, f1.2 as nat, f1.3 as nat, f1.4 as nat,
        f2.0 as int, f2.1 as nat, f2.2 as nat, f2.3 as nat, f2.4 as nat,
    );
    assert(fields_minutes(f1) == fields_minutes(f2));
}

/// Settings are empty exactly when they equal the settings of `MysqlInfo::new`.
pub proof fn law_empty_settings(v: MysqlInfoView)
    ensures
        info_is_empty(v) <==> v == empty_info(),
{
    if info_is_empty(v) {
        assert(v.ip =~= Seq::<char>::empty());
        assert(v.login =~= Seq::<char>::empty());
        assert(v.password =~= Seq::<char>::empty());
        assert(v.database =~= Seq::<char>::empty());
        assert(v.port =~= Seq::<char>::empty());
    }
}

/// In every well-formed connection state, the reported status names the state
/// exactly: connected, connecting, or neither.
pub proof fn law_status_names_state(db: AzsDb)
    requires
        db.well_formed(),
    ensures
        (status_of(db.mysql_connected, db.is_connecting) == TypesStatus::Connected) == db.mysql_connected,
        (status_of(db.mysql_connected, db.is_connecting) == TypesStatus::Connecting) == db.is_connecting,
        (status_of(db.mysql_connected, db.is_connecting) == TypesStatus::Disconnected)
            == (!db.mysql_connected && !db.is_connecting),
{
}

/// A log line names its source first and ends with a newline, and appending
/// two errors to the log keeps them in order.
pub proof fn law_log_lines(log: Seq<char>, e1: Seq<char>, e2: Seq<char>, source: Seq<char>, now: Seq<char>, detail: Seq<char>)
    ensures
        error_line_text(source, now, detail).subrange(0, source.len() as int) == source,
        error_line_text(source, now, detail).last() == '\n',
        (log + e1) + e2 == log + (e1 + e2),
{
    assert(error_line_text(source, now, detail).subrange(0, source.len() as int) =~= source);
    assert((log + e1) + e2 =~= log + (e1 + e2));
}

/// A row of nozzles joins when every nozzle joins, and then the row holds, in
/// order, the join of each nozzle.
pub proof fn law_row_join(tovars: Seq<Tovar>, tanks: Seq<Tank>, ps: Seq<Pist>)
    ensures
        resolve_pists(tovars, tanks, ps) is Ok <==> forall|j: int| 0 <= j < ps.len() ==> #[trigger] resolve_pist(tovars, tanks, ps[j]) is Ok,
        resolve_pists(tovars, tanks, ps) is Ok ==> {
            let row = resolve_pists(tovars, tanks, ps)->Ok_0;
            &&& row.len() == ps.len()
            &&& forall|j: int| 0 <= j < ps.len() ==> resolve_pist(tovars, tanks, #[trigger] ps[j]) == Ok::<PistTemplateView, Seq<char>>(row[j])
        },
    decreases ps.len(),
{
    if ps.len() > 0 {
        let init = ps.drop_last();
        law_row_join(tovars, tanks, init);
        let r_init = resolve_pists(tovars, tanks, init);
        let r_last = resolve_pist(tovars, tanks, ps.last());
        if r_init is Ok && r_last is Ok {
            let row = resolve_pists(tovars, tanks, ps)->Ok_0;
            assert(row == r_init->Ok_0.push(r_last->Ok_0));
            assert forall|j: int| 0 <= j < ps.len() implies resolve_pist(tovars, tanks, #[trigger] ps[j])
                == Ok::<PistTemplateView, Seq<char>>(row[j]) by {
                if j < ps.len() - 1 {
                    assert(ps[j] == init[j]);
                    assert(resolve_pist(tovars, tanks, init[j]) == Ok::<PistTemplateView, Seq<char>>(r_init->Ok_0[j]));
                }
            }
        } else if r_init is Ok {
            assert(ps[ps.len() - 1] == ps.last());
            assert(!(resolve_pist(tovars, tanks, ps[ps.len() - 1]) is Ok));
        } else {
            let j = choose|j: int| 0 <= j < init.len() && !(#[trigger] resolve_pist(tovars, tanks, init[j]) is Ok);
            assert(ps[j] == init[j]);
            assert(!(resolve_pist(tovars, tanks, ps[j]) is Ok));
        }
    }
}

/// Every shown nozzle carries the goods of a tank that feeds it: when all
/// pumps join, each nozzle's entry has the price, colour and name of goods
/// whose id is the goods id of a tank with the nozzle's tank id. And the
/// pumps join exactly when every nozzle of every pump joins.
pub proof fn law_shown_goods_come_from_the_tank(tovars: Seq<Tovar>, tanks: Seq<Tank>, trks: Seq<Trk>)
    ensures
        resolve_trks(tovars, tanks, trks) is Ok <==> forall|i: int, j: int|
            0 <= i < trks.len() && 0 <= j < trks[i].pists@.len()
                ==> #[trigger] resolve_pist(tovars, tanks, trks[i].pists@[j]) is Ok,
        resolve_trks(tovars, tanks, trks) is Ok ==> {
            let rows = resolve_trks(tovars, tanks, trks)->Ok_0;
            &&& rows.len() == trks.len()
            &&& forall|i: int| 0 <= i < trks.len() ==> (#[trigger] rows[i]).len() == trks[i].pists@.len()
            &&& forall|i: int, j: int| #![trigger rows[i][j]] 0 <= i < trks.len() && 0 <= j < trks[i].pists@.len() ==>
                resolve_pist(tovars, tanks, trks[i].pists@[j]) == Ok::<PistTemplateView, Seq<char>>(rows[i][j])
        },
    decreases trks.len(),
{
    if trks.len() > 0 {
        let init = trks.drop_last();
        let last = trks.last();
        law_shown_goods_come_from_the_tank(tovars, tanks, init);
        law_row_join(tovars, tanks, last.pists@);
        let r_init = resolve_trks(tovars, tanks, init);
        let r_last = resolve_pists(tovars, tanks, last.pists@);
        assert(trks[trks.len() - 1] == last);
        if r_init is Ok && r_last is Ok {
            let rows = resolve_trks(tovars, tanks, trks)->Ok_0;
            let prev = r_init->Ok_0;
            assert(rows == prev.push(r_last->Ok_0));
            assert forall|i: int| 0 <= i < trks.len() implies (#[trigger] rows[i]).len() == trks[i].pists@.len() by {
                if i < trks.len() - 1 {
                    assert(trks[i] == init[i]);
                    assert(rows[i] == prev[i]);
                }
            }
            assert forall|i: int, j: int| #![trigger rows[i][j]] 0 <= i < trks.len() && 0 <= j < trks[i].pists@.len() implies
                resolve_pist(tovars, tanks, trks[i].pists@[j]) == Ok::<PistTemplateView, Seq<char>>(rows[i][j]) by {
                if i < trks.len() - 1 {
                    assert(trks[i] == init[i]);
                    assert(rows[i] == prev[i]);
                    assert(resolve_pist(tovars, tanks, init[i].pists@[j]) == Ok::<PistTemplateView, Seq<char>>(prev[i][j]));
                } else {
                    assert(resolve_pist(tovars, tanks, last.pists@[j]) == Ok::<PistTemplateView, Seq<char>>(r_last->Ok_0[j]));
                }
            }
            assert forall|i: int, j: int| 0 <= i < trks.len() && 0 <= j < trks[i].pists@.len()
                implies #[trigger] resolve_pist(tovars, tanks, trks[i].pists@[j]) is Ok by {
                assert(resolve_pist(tovars, tanks, trks[i].pists@[j]) == Ok::<PistTemplateView, Seq<char>>(rows[i][j]));
            }
        } else if r_init is Ok {
            let j = choose|j: int| 0 <= j < last.pists@.len() && !(#[trigger] resolve_pist(tovars, tanks, last.pists@[j]) is Ok);
            assert(!(resolve_pist(tovars, tanks, trks[trks.len() - 1].pists@[j]) is Ok));
        } else {
            let (i, j) = choose|i: int, j: int| 0 <= i < init.len() && 0 <= j < init[i].pists@.len()
                && !(#[trigger] resolve_pist(tovars, tanks, init[i].pists@[j]) is Ok);
            assert(trks[i] == init[i]);
            assert(!(resolve_pist(tovars, tanks, trks[i].pists@[j]) is Ok));
        }
    }
}

/// A nozzle that joins shows the goods of the tank that feeds it: the last
/// tank with the nozzle's tank id, and the last goods entry with that tank's
/// goods id. The shown entry keeps the nozzle's own ids and carries that
/// entry's price, name and colour, red, green and blue each from the same
/// component of the goods' colour.
pub proof fn law_joined_nozzle_shows_its_tanks_goods(tovars: Seq<Tovar>, tanks: Seq<Tank>, p: Pist)
    requires
        resolve_pist(tovars, tanks, p) is Ok,
    ensures
        exists|ti: int, vi: int| #![trigger tanks[ti], tovars[vi]]
            0 <= ti < tanks.len() && 0 <= vi < tovars.len()
            && tanks[ti].id_tank == p.id_tank
            && tovars[vi].id_tovar == tanks[ti].id_tovar
            && (forall|j: int| ti < j < tanks.len() ==> tanks[j].id_tank != p.id_tank)
            && (forall|j: int| vi < j < tovars.len() ==> tovars[j].id_tovar != tanks[ti].id_tovar)
            && resolve_pist(tovars, tanks, p) == Ok::<PistTemplateView, Seq<char>>(pist_template(p, tovars[vi]))
            && resolve_pist(tovars, tanks, p)->Ok_0.id_pist == p.id_pist
            && resolve_pist(tovars, tanks, p)->Ok_0.id_tank == p.id_tank
            && resolve_pist(tovars, tanks, p)->Ok_0.price == tovars[vi].price@
            && resolve_pist(tovars, tanks, p)->Ok_0.name == tovars[vi].name@
            && resolve_pist(tovars, tanks, p)->Ok_0.r == tovars[vi].color.r
            && resolve_pist(tovars, tanks, p)->Ok_0.g == tovars[vi].color.g
            && resolve_pist(tovars, tanks, p)->Ok_0.b == tovars[vi].color.b,
{
    lemma_last_tank_index(tanks, p.id_tank);
    let ti = last_tank_index(tanks, p.id_tank);
    lemma_last_tovar_index(tovars, tanks[ti].id_tovar);
    let vi = last_tovar_index(tovars, tanks[ti].id_tovar);
    assert(tanks[ti].id_tank == p.id_tank && tovars[vi].id_tovar == tanks[ti].id_tovar);
}

/// A nozzle fails to join exactly when no tank has its tank id, or the last
/// such tank holds goods that no entry has.
pub proof fn law_nozzle_join_fails(tovars: Seq<Tovar>, tanks: Seq<Tank>, p: Pist)
    ensures
        resolve_pist(tovars, tanks, p) == Err::<PistTemplateView, Seq<char>>(parse_tanks_detail())
            <==> (forall|t: int| 0 <= t < tanks.len() ==> #[trigger] tanks[t].id_tank != p.id_tank),
{
    lemma_last_tank_index(tanks, p.id_tank);
    let ti = last_tank_index(tanks, p.id_tank);
    if ti >= 0 {
        assert(tanks[ti].id_tank == p.id_tank);
        assert(parse_tanks_detail() != parse_tovar_detail()) by {
            assert(parse_tanks_detail()[7] != parse_tovar_detail()[7]);
        }
    }
}

/// A settings request stores each part exactly when it carries that part,
/// whatever it carries of the others, each part once, in the order goods,
/// pumps, tanks.
pub proof fn law_settings_request_stores_what_it_carries(tovars: bool, trks: bool, tanks: bool)
    ensures
        parts_present(tovars, trks, tanks).contains(EquipmentPart::Tovars) <==> tovars,
        parts_present(tovars, trks, tanks).contains(EquipmentPart::Trks) <==> trks,
        parts_present(tovars, trks, tanks).contains(EquipmentPart::Tanks) <==> tanks,
        forall|i: int, j: int| 0 <= i < j < parts_present(tovars, trks, tanks).len()
            ==> write_rank(#[trigger] parts_present(tovars, trks, tanks)[i])
                < write_rank(#[trigger] parts_present(tovars, trks, tanks)[j]),
{
    let s = parts_present(tovars, trks, tanks);
    if tovars {
        assert(s[0] == EquipmentPart::Tovars);
    }
    if trks {
        assert(s[if tovars { 1int } else { 0int }] == EquipmentPart::Trks);
    }
    if tanks {
        assert(s[s.len() - 1] == EquipmentPart::Tanks);
    }
}

/// The statements that write the settings name the columns ip, login,
/// password, database, port, in the order in which the values are given (the
/// fields of the settings, in that order), so that a row written by either of
/// them reads back as the settings that were written.
pub proof fn law_settings_write_round_trip(v: MysqlInfoView)
    ensures
        insert_settings_sql() == insert_statement("mysql_db"@, settings_columns()),
        update_settings_sql() == update_statement(
            "mysql_db"@,
            settings_columns(),
            "id = (SELECT id FROM mysql_db LIMIT 1)"@,
        ),
        settings_from_row(written_row(settings_columns(), seq![v.ip, v.login, v.password, v.database, v.port])) == v,
{
    reveal_strlit("INSERT INTO mysql_db (ip, login, password, database, port) VALUES (?, ?, ?, ?, ?)");
    reveal_strlit("UPDATE mysql_db SET ip=?, login=?, password=?, database=?, port=? WHERE id = (SELECT id FROM mysql_db LIMIT 1)");
    reveal_strlit("INSERT INTO ");
    reveal_strlit("UPDATE ");
    reveal_strlit(" SET ");
    reveal_strlit(" WHERE ");
    reveal_strlit("mysql_db");
    reveal_strlit(" (");
    reveal_strlit(") VALUES (");
    reveal_strlit(")");
    reveal_strlit(", ");
    reveal_strlit("?");
    reveal_strlit("=?");
    reveal_strlit("ip");
    reveal_strlit("login");
    reveal_strlit("password");
    reveal_strlit("database");
    reveal_strlit("port");
    reveal_strlit("id = (SELECT id FROM mysql_db LIMIT 1)");
    reveal_with_fuel(join_with, 6);
    reveal_with_fuel(written_row, 6);
    let cols = settings_columns();
    let sep = ", "@;
    assert(cols.drop_last().drop_last().drop_last().drop_last() =~= seq!["ip"@]);
    assert(join_with(cols, sep) =~= "ip"@ + sep + "login"@ + sep + "password"@ + sep + "database"@ + sep + "port"@);
    let qs = Seq::new(cols.len(), |i: int| "?"@);
    assert(qs.drop_last().drop_last().drop_last().drop_last() =~= seq!["?"@]);
    assert(join_with(qs, sep) =~= "?"@ + sep + "?"@ + sep + "?"@ + sep + "?"@ + sep + "?"@);
    assert(insert_settings_sql() =~= insert_statement("mysql_db"@, cols));
    let sets = cols.map_values(|c: Seq<char>| c + "=?"@);
    assert(sets.drop_last().drop_last().drop_last().drop_last() =~= seq!["ip"@ + "=?"@]);
    assert(join_with(sets, sep) =~= "ip"@ + "=?"@ + sep + "login"@ + "=?"@ + sep + "password"@ + "=?"@ + sep
        + "database"@ + "=?"@ + sep + "port"@ + "=?"@);
    assert(update_settings_sql() =~= update_statement("mysql_db"@, cols, "id = (SELECT id FROM mysql_db LIMIT 1)"@));
    let vals = seq![v.ip, v.login, v.password, v.database, v.port];
    assert(vals.drop_last().drop_last().drop_last().drop_last() =~= seq![v.ip]);
    assert(cols.drop_last() =~= seq!["ip"@, "login"@, "password"@, "database"@]);
    assert(vals.drop_last() =~= seq![v.ip, v.login, v.password, v.database]);
    assert(cols.drop_last().drop_last() =~= seq!["ip"@, "login"@, "password"@]);
    assert(vals.drop_last().drop_last() =~= seq![v.ip, v.login, v.password]);
    assert(cols.drop_last().drop_last().drop_last() =~= seq!["ip"@, "login"@]);
    assert(vals.drop_last().drop_last().drop_last() =~= seq![v.ip, v.login]);
    assert("password"@ != "database"@) by {
        assert("password"@[0] != "database"@[0]);
    }
    assert("password"@ != "port"@) by {
        assert("password"@.len() != "port"@.len());
    }
    let row = written_row(cols, vals);
    assert(row["ip"@] == v.ip);
    assert(row["login"@] == v.login);
    assert(row["password"@] == v.password);
    assert(row["database"@] == v.database);
    assert(row["port"@] == v.port);
}

} // verus!
