//! The geographic reference table: named points with coordinates, parsed
//! once from a delimited dataset and then only read.
//!
//! The dataset holds one record per line, `identifier,latitude,longitude`,
//! with coordinates written as plain decimal degrees. Construction is
//! all-or-nothing: a line with the wrong field count or a non-numeric
//! coordinate fails the whole build, never a partial table. Coordinates
//! are held in millionths of a degree; fraction digits beyond the sixth
//! are dropped.

use vstd::prelude::*;
use vstd::string::*;

use crate::text::str_eq;

verus! {

/// A decimal digit character.
pub open spec fn is_digit(c: char) -> bool {
    48 <= c as u32 <= 57
}

/// The numeric value of a digit character.
pub open spec fn digit_val(c: char) -> int {
    c as u32 - 48
}

/// Every character is a digit.
pub open spec fn all_digits(s: Seq<char>) -> bool {
    forall|k: int| 0 <= k < s.len() ==> is_digit(#[trigger] s[k])
}

/// The value of a digit string read most significant first.
pub open spec fn digits_val(s: Seq<char>) -> int
    decreases s.len(),
{
    if s.len() == 0 {
        0
    } else {
        digits_val(s.drop_last()) * 10 + digit_val(s.last())
    }
}

/// Ten to the `n`.
pub open spec fn pow10(n: nat) -> int
    decreases n,
{
    if n == 0 {
        1
    } else {
        10 * pow10((n - 1) as nat)
    }
}

proof fn lemma_pow10_pos(n: nat)
    ensures
        pow10(n) >= 1,
    decreases n,
{
    if n > 0 {
        lemma_pow10_pos((n - 1) as nat);
    }
}

proof fn lemma_pow10_mono(a: nat, b: nat)
    requires
        a <= b,
    ensures
        pow10(a) <= pow10(b),
    decreases b,
{
    if a < b {
        lemma_pow10_mono(a, (b - 1) as nat);
        lemma_pow10_pos((b - 1) as nat);
    }
}

proof fn lemma_pow10_vals()
    ensures
        pow10(6) == 1000000,
        pow10(12) == 1000000000000,
{
    reveal_with_fuel(pow10, 13);
}

/// The length of the leading run of digit characters.
pub open spec fn digit_prefix_len(s: Seq<char>) -> int
    decreases s.len(),
{
    if s.len() == 0 {
        0
    } else if !is_digit(s[0]) {
        0
    } else {
        1 + digit_prefix_len(s.drop_first())
    }
}

/// A scan that stopped at the first non-digit found the digit prefix.
proof fn lemma_digit_prefix_len_is(s: Seq<char>, i: int)
    requires
        0 <= i <= s.len(),
        forall|k: int| 0 <= k < i ==> is_digit(#[trigger] s[k]),
        i == s.len() || !is_digit(s[i]),
    ensures
        digit_prefix_len(s) == i,
    decreases s.len(),
{
    if s.len() == 0 {
    } else if !is_digit(s[0]) {
        assert(i == 0);
    } else {
        assert(i >= 1);
        assert(forall|k: int|
            0 <= k < i - 1 ==> is_digit(#[trigger] s.drop_first()[k]));
        lemma_digit_prefix_len_is(s.drop_first(), i - 1);
    }
}

/// The millionths encoded by the fraction digits that follow the decimal
/// point: the first six digits, padded with zeros on the right.
pub open spec fn frac_micro(s: Seq<char>) -> int {
    if s.len() >= 6 {
        digits_val(s.take(6))
    } else {
        digits_val(s) * pow10((6 - s.len()) as nat)
    }
}

/// The value, in millionths, of an unsigned coordinate: one to twelve
/// leading digits, then optionally a point followed by at least one more
/// digit, and nothing else.
pub open spec fn coord_mag_micro(s: Seq<char>) -> Option<int> {
    let d = digit_prefix_len(s);
    if d == 0 || d > 12 {
        None
    } else if d == s.len() {
        Some(digits_val(s) * 1000000)
    } else if s[d] == '.' && d + 1 < s.len() && all_digits(s.skip(d + 1)) {
        Some(digits_val(s.take(d)) * 1000000 + frac_micro(s.skip(d + 1)))
    } else {
        None
    }
}

/// The signed coordinate value in millionths, or `None` when the text is
/// not a plain decimal number of that shape.
pub open spec fn spec_coord_micro(s: Seq<char>) -> Option<int> {
    if s.len() > 0 && s[0] == '-' {
        match coord_mag_micro(s.drop_first()) {
            Some(v) => Some(-v),
            None => None,
        }
    } else {
        coord_mag_micro(s)
    }
}

/// The value of the digit characters of `s` from `from` to `to`.
fn digits_value(s: &str, from: usize, to: usize) -> (r: i64)
    requires
        from <= to <= s@.len(),
        to - from <= 12,
        forall|k: int| from <= k < to ==> is_digit(#[trigger] s@[k]),
    ensures
        r == digits_val(s@.subrange(from as int, to as int)),
        0 <= r < pow10((to - from) as nat),
{
    let mut acc: i64 = 0;
    let mut j = from;
    proof {
        assert(s@.subrange(from as int, from as int) =~= Seq::<char>::empty());
    }
    while j < to
        invariant
            from <= j <= to <= s@.len(),
            to - from <= 12,
            forall|k: int| from <= k < to ==> is_digit(#[trigger] s@[k]),
            acc == digits_val(s@.subrange(from as int, j as int)),
            0 <= acc < pow10((j - from) as nat),
        decreases to - j,
    {
        proof {
            lemma_pow10_mono((j - from) as nat, 12);
            lemma_pow10_vals();
        }
        let c = s.get_char(j);
        let d = (c as u32 - 48) as i64;
        acc = acc * 10 + d;
        proof {
            assert(s@.subrange(from as int, j as int + 1).drop_last() =~= s@.subrange(
                from as int,
                j as int,
            ));
            assert(s@.subrange(from as int, j as int + 1).last() == s@[j as int]);
        }
        j = j + 1;
    }
    acc
}

/// Ten to a small power, executable.
fn ten_pow(e: usize) -> (r: i64)
    requires
        e <= 6,
    ensures
        r == pow10(e as nat),
{
    proof {
        reveal_with_fuel(pow10, 7);
    }
    if e == 0 {
        1
    } else if e == 1 {
        10
    } else if e == 2 {
        100
    } else if e == 3 {
        1000
    } else if e == 4 {
        10000
    } else if e == 5 {
        100000
    } else {
        1000000
    }
}

/// Parse the digits-point-digits part of a coordinate.
fn parse_unsigned_micro(s: &str) -> (r: Option<i64>)
    ensures
        r is Some <==> coord_mag_micro(s@) is Some,
        r is Some ==> 0 <= r->0 && r->0 == coord_mag_micro(s@)->0,
{
    let len = s.unicode_len();
    let mut i: usize = 0;
    loop
        invariant
            i <= len,
            len == s@.len(),
            forall|k: int| 0 <= k < i ==> is_digit(#[trigger] s@[k]),
        ensures
            i <= len,
            len == s@.len(),
            forall|k: int| 0 <= k < i ==> is_digit(#[trigger] s@[k]),
            i == len || !is_digit(s@[i as int]),
        decreases len - i,
    {
        if i == len {
            break ;
        }
        let c = s.get_char(i);
        if (c as u32) < 48 || (c as u32) > 57 {
            break ;
        }
        i = i + 1;
    }
    proof {
        lemma_digit_prefix_len_is(s@, i as int);
        lemma_pow10_vals();
    }
    if i == 0 || i > 12 {
        return None;
    }
    let int_val = digits_value(s, 0, i);
    proof {
        lemma_pow10_mono(i as nat, 12);
    }
    if i == len {
        proof {
            assert(s@.subrange(0, i as int) =~= s@);
        }
        return Some(int_val * 1000000);
    }
    let c = s.get_char(i);
    if c != '.' {
        return None;
    }
    if i + 1 == len {
        return None;
    }
    // scan the fraction digits; any non-digit rejects the coordinate
    let mut j = i + 1;
    loop
        invariant
            i + 1 <= j <= len,
            len == s@.len(),
            forall|k: int| i + 1 <= k < j ==> is_digit(#[trigger] s@[k]),
        ensures
            i + 1 <= j <= len,
            forall|k: int| i + 1 <= k < j ==> is_digit(#[trigger] s@[k]),
            j == len || !is_digit(s@[j as int]),
        decreases len - j,
    {
        if j == len {
            break ;
        }
        let c2 = s.get_char(j);
        if (c2 as u32) < 48 || (c2 as u32) > 57 {
            break ;
        }
        j = j + 1;
    }
    if j < len {
        proof {
            assert(s@.skip(i as int + 1)[j - (i + 1)] == s@[j as int]);
            assert(!all_digits(s@.skip(i as int + 1)));
        }
        return None;
    }
    proof {
        assert(forall|k: int|
            0 <= k < s@.skip(i as int + 1).len() ==> is_digit(#[trigger] s@.skip(i as int + 1)[k]));
    }
    let fcount = len - (i + 1);
    let m = if fcount >= 6 {
        6
    } else {
        fcount
    };
    let frac_digits = digits_value(s, i + 1, i + 1 + m);
    let scale = ten_pow(6 - m);
    proof {
        lemma_pow10_mono(m as nat, 6);
        lemma_pow10_mono((6 - m) as nat, 6);
        lemma_pow10_pos((6 - m) as nat);
        assert(frac_digits * scale <= 1000000000000 && frac_digits * scale >= 0)
            by (nonlinear_arith)
            requires
                0 <= frac_digits <= 1000000,
                0 <= scale <= 1000000,
        ;
        if fcount >= 6 {
            assert(s@.subrange(i as int + 1, i as int + 1 + m) =~= s@.skip(i as int + 1).take(6));
        } else {
            assert(s@.subrange(i as int + 1, i as int + 1 + m) =~= s@.skip(i as int + 1));
        }
        assert(s@.subrange(0, i as int) =~= s@.take(i as int));
    }
    let frac_val = frac_digits * scale;
    proof {
        if fcount >= 6 {
            assert(scale == 1);
            assert(frac_val == frac_digits) by (nonlinear_arith)
                requires
                    frac_val == frac_digits * scale,
                    scale == 1,
            ;
            assert(frac_val == frac_micro(s@.skip(i as int + 1)));
        } else {
            assert(s@.skip(i as int + 1).len() == fcount);
            assert(frac_val == frac_micro(s@.skip(i as int + 1)));
        }
        assert(int_val == digits_val(s@.take(i as int)));
        assert(coord_mag_micro(s@) == Some(
            digits_val(s@.take(i as int)) * 1000000 + frac_micro(s@.skip(i as int + 1)),
        ));
    }
    Some(int_val * 1000000 + frac_val)
}

/// Parse a decimal coordinate into millionths of a unit, exactly as
/// [`spec_coord_micro`] states.
pub fn parse_coord_micro(s: &str) -> (r: Option<i64>)
    ensures
        r is Some <==> spec_coord_micro(s@) is Some,
        r is Some ==> r->0 == spec_coord_micro(s@)->0,
{
    let len = s.unicode_len();
    if len > 0 && s.get_char(0) == '-' {
        let body = s.substring_char(1, len);
        proof {
            assert(body@ =~= s@.drop_first());
        }
        match parse_unsigned_micro(body) {
            Some(v) => Some(-v),
            None => None,
        }
    } else {
        parse_unsigned_micro(s)
    }
}

/// The character sequences of a sequence of strings.
pub open spec fn views_of(v: Seq<String>) -> Seq<Seq<char>> {
    v.map_values(|p: String| p@)
}

/// The length of the leading run of characters other than `sep`.
pub open spec fn sep_free_prefix_len(s: Seq<char>, sep: char) -> int
    decreases s.len(),
{
    if s.len() == 0 {
        0
    } else if s[0] == sep {
        0
    } else {
        1 + sep_free_prefix_len(s.drop_first(), sep)
    }
}

/// The separator-free prefix lies within the sequence.
pub proof fn lemma_sep_free_prefix_le(s: Seq<char>, sep: char)
    ensures
        0 <= sep_free_prefix_len(s, sep) <= s.len(),
    decreases s.len(),
{
    if s.len() > 0 && s[0] != sep {
        lemma_sep_free_prefix_le(s.drop_first(), sep);
    }
}

/// A scan that stopped at the first separator found that prefix.
proof fn lemma_sep_free_prefix_is(s: Seq<char>, sep: char, i: int)
    requires
        0 <= i <= s.len(),
        forall|k: int| 0 <= k < i ==> s[k] != sep,
        i == s.len() || s[i] == sep,
    ensures
        sep_free_prefix_len(s, sep) == i,
    decreases s.len(),
{
    if s.len() == 0 {
    } else if s[0] == sep {
        assert(i == 0);
    } else {
        assert(i >= 1);
        lemma_sep_free_prefix_is(s.drop_first(), sep, i - 1);
    }
}

#[via_fn]
proof fn spec_split_decreases(s: Seq<char>, sep: char) {
    lemma_sep_free_prefix_le(s, sep);
}

/// The pieces of `s` between occurrences of `sep`: joining the pieces
/// with `sep` gives `s` back, and no piece contains `sep`.
pub open spec fn spec_split(s: Seq<char>, sep: char) -> Seq<Seq<char>>
    decreases s.len(),
    via spec_split_decreases
{
    let i = sep_free_prefix_len(s, sep);
    if i == s.len() {
        seq![s]
    } else {
        seq![s.take(i)] + spec_split(s.skip(i + 1), sep)
    }
}

/// Split a string at every occurrence of `sep`.
pub fn split_on(s: &str, sep: char) -> (r: Vec<String>)
    ensures
        views_of(r@) == spec_split(s@, sep),
    decreases s@.len(),
{
    let len = s.unicode_len();
    let mut i: usize = 0;
    loop
        invariant
            i <= len,
            len == s@.len(),
            forall|k: int| 0 <= k < i ==> s@[k] != sep,
        ensures
            i <= len,
            len == s@.len(),
            forall|k: int| 0 <= k < i ==> s@[k] != sep,
            i == len || s@[i as int] == sep,
        decreases len - i,
    {
        if i == len {
            break ;
        }
        if s.get_char(i) == sep {
            break ;
        }
        i = i + 1;
    }
    proof {
        lemma_sep_free_prefix_is(s@, sep, i as int);
    }
    if i == len {
        let mut r: Vec<String> = Vec::new();
        r.push(s.to_owned());
        proof {
            assert(views_of(r@) =~= spec_split(s@, sep));
        }
        r
    } else {
        let head = s.substring_char(0, i);
        let tail = s.substring_char(i + 1, len);
        proof {
            assert(tail@ =~= s@.skip(i as int + 1));
        }
        let mut r = split_on(tail, sep);
        let owned = head.to_owned();
        let ghost ow = owned;
        let ghost sub = r@;
        r.insert(0, owned);
        proof {
            assert(head@ =~= s@.take(i as int));
            sub.insert_ensures(0, ow);
            assert(r@ =~= seq![ow].add(sub));
            assert(views_of(r@) =~= spec_split(s@, sep));
        }
        r
    }
}

/// A named point of the reference dataset: coordinates in millionths of
/// a degree.
#[derive(Clone, Debug, PartialEq)]
pub struct Airport {
    /// The point's identifier, the key it is looked up by.
    pub identifier: String,
    /// Decimal latitude, in millionths of a degree.
    pub latitude: i64,
    /// Decimal longitude, in millionths of a degree.
    pub longitude: i64,
}

/// The model of one airport: identifier characters and coordinates.
pub open spec fn airport_model(a: Airport) -> (Seq<char>, int, int) {
    (a.identifier@, a.latitude as int, a.longitude as int)
}

/// The models of a sequence of airports.
pub open spec fn models_of(v: Seq<Airport>) -> Seq<(Seq<char>, int, int)> {
    v.map_values(|a: Airport| airport_model(a))
}

/// The record a dataset line describes, or `None` for a malformed line:
/// wrong field count, or a coordinate that is not a plain decimal number.
pub open spec fn spec_parse_line(line: Seq<char>) -> Option<(Seq<char>, int, int)> {
    let parts = spec_split(line, ',');
    if parts.len() != 3 {
        None
    } else {
        match spec_coord_micro(parts[1]) {
            Some(lat) => match spec_coord_micro(parts[2]) {
                Some(lon) => Some((parts[0], lat, lon)),
                None => None,
            },
            None => None,
        }
    }
}

/// The records of the dataset's lines, in order, skipping empty lines;
/// `None` when any non-empty line is malformed.
pub open spec fn spec_parse_table(lines: Seq<Seq<char>>) -> Option<Seq<(Seq<char>, int, int)>>
    decreases lines.len(),
{
    if lines.len() == 0 {
        Some(Seq::empty())
    } else {
        let rest = spec_parse_table(lines.drop_first());
        if lines[0].len() == 0 {
            rest
        } else {
            match spec_parse_line(lines[0]) {
                Some(rec) => match rest {
                    Some(t) => Some(seq![rec] + t),
                    None => None,
                },
                None => None,
            }
        }
    }
}

/// The table a whole dataset describes: its lines' records in file order.
pub open spec fn spec_table(data: Seq<char>) -> Option<Seq<(Seq<char>, int, int)>> {
    spec_parse_table(spec_split(data, '\n'))
}

/// The index of the last record whose identifier is `id`.
pub open spec fn spec_last_match(s: Seq<Airport>, id: Seq<char>) -> Option<int>
    decreases s.len(),
{
    if s.len() == 0 {
        None
    } else if s.last().identifier@ == id {
        Some(s.len() - 1)
    } else {
        spec_last_match(s.drop_last(), id)
    }
}

/// The reference table: built once from the dataset, then only read.
/// Immutable after construction, so concurrent readers need no
/// synchronization; sharing is the owner's choice.
pub struct GeoReference {
    airports: Vec<Airport>,
}

impl View for GeoReference {
    type V = Seq<Airport>;

    closed spec fn view(&self) -> Seq<Airport> {
        self.airports@
    }
}

impl GeoReference {
    /// Parse the delimited dataset into a table, one record per non-empty
    /// line in file order. The build is all-or-nothing: any malformed
    /// line yields `None` and no table.
    pub fn build(data: &str) -> (r: Option<GeoReference>)
        ensures
            r is Some <==> spec_table(data@) is Some,
            r is Some ==> models_of(r->0@) == spec_table(data@)->0,
    {
        let lines = split_on(data, '\n');
        let ghost views = views_of(lines@);
        let mut airports: Vec<Airport> = Vec::new();
        let mut li: usize = 0;
        proof {
            assert(views.skip(0) =~= views);
            assert(models_of(airports@) =~= Seq::<(Seq<char>, int, int)>::empty());
        }
        while li < lines.len()
            invariant
                li <= lines@.len(),
                views == views_of(lines@),
                views == spec_split(data@, '\n'),
                match spec_parse_table(views.skip(li as int)) {
                    Some(t) => spec_parse_table(views) == Some(models_of(airports@) + t),
                    None => spec_parse_table(views) is None,
                },
            decreases lines@.len() - li,
        {
            let ghost remaining = views.skip(li as int);
            proof {
                assert(remaining[0] == views[li as int]);
                assert(remaining[0] == lines@[li as int]@);
                assert(remaining.drop_first() =~= views.skip(li as int + 1));
            }
            let line = &lines[li];
            if !line.as_str().is_empty() {
                let parts = split_on(line.as_str(), ',');
                let ghost pviews = views_of(parts@);
                proof {
                    assert(pviews == spec_split(remaining[0], ','));
                }
                if parts.len() != 3 {
                    proof {
                        assert(pviews.len() != 3);
                        assert(spec_parse_line(remaining[0]) is None);
                        assert(spec_parse_table(remaining) is None);
                    }
                    return None;
                }
                proof {
                    assert(pviews[1] == parts@[1]@ && pviews[2] == parts@[2]@ && pviews[0]
                        == parts@[0]@);
                }
                let lat = match parse_coord_micro(parts[1].as_str()) {
                    Some(v) => v,
                    None => {
                        proof {
                            assert(spec_parse_line(remaining[0]) is None);
                            assert(spec_parse_table(remaining) is None);
                        }
                        return None;
                    },
                };
                let lon = match parse_coord_micro(parts[2].as_str()) {
                    Some(v) => v,
                    None => {
                        proof {
                            assert(spec_parse_line(remaining[0]) is None);
                            assert(spec_parse_table(remaining) is None);
                        }
                        return None;
                    },
                };
                let identifier = parts[0].clone();
                let ghost before = airports@;
                airports.push(Airport { identifier, latitude: lat, longitude: lon });
                proof {
                    let rec = (parts@[0]@, lat as int, lon as int);
                    assert(spec_parse_line(remaining[0]) == Some(rec));
                    assert(models_of(airports@) =~= models_of(before).push(rec));
                    if spec_parse_table(views.skip(li as int + 1)) is Some {
                        let t2 = spec_parse_table(views.skip(li as int + 1))->0;
                        assert(spec_parse_table(remaining) == Some(seq![rec] + t2));
                        assert(models_of(before) + (seq![rec] + t2) =~= models_of(airports@) + t2);
                    }
                }
            }
            li = li + 1;
        }
        proof {
            assert(views.skip(views.len() as int) =~= Seq::<Seq<char>>::empty());
            assert(models_of(airports@) + Seq::<(Seq<char>, int, int)>::empty() =~= models_of(
                airports@,
            ));
            assert(views == spec_split(data@, '\n'));
        }
        Some(GeoReference { airports })
    }

    /// Exact-key lookup. When several records share an identifier, the
    /// last one in dataset order wins, as in a map filled by successive
    /// insertion; `None` when the identifier is absent.
    pub fn lookup(&self, identifier: &str) -> (r: Option<&Airport>)
        ensures
            match spec_last_match(self@, identifier@) {
                Some(i) => r is Some && *r->0 == self@[i],
                None => r is None,
            },
    {
        let mut k = self.airports.len();
        proof {
            assert(self@.take(k as int) =~= self@);
        }
        while k > 0
            invariant
                k <= self.airports@.len(),
                self@ == self.airports@,
                spec_last_match(self@, identifier@) == spec_last_match(
                    self@.take(k as int),
                    identifier@,
                ),
            decreases k,
        {
            let k1 = k - 1;
            if str_eq(self.airports[k1].identifier.as_str(), identifier) {
                proof {
                    assert(self@.take(k as int).last() == self@[k1 as int]);
                }
                return Some(&self.airports[k1]);
            }
            proof {
                assert(self@.take(k as int).last() == self@[k1 as int]);
                assert(self@.take(k as int).drop_last() =~= self@.take(k1 as int));
            }
            k = k1;
        }
        proof {
            assert(self@.take(0).len() == 0);
        }
        None
    }

    /// Every record, in dataset order.
    pub fn all(&self) -> (r: &Vec<Airport>)
        ensures
            r@ == self@,
    {
        &self.airports
    }
}

} // verus!
