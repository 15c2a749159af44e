use vstd::prelude::*;
use vstd::string::StringSliceAdditionalSpecFns;

verus! {

/// Why program text could not be loaded.
#[derive(Clone, Copy, Debug, PartialEq, Eq, Structural)]
pub enum LoadError {
    /// The comma-separated field at this index (from 0) is not a signed
    /// 64-bit decimal integer.
    Malformed(usize),
}

/// ASCII whitespace: tab, line feed, vertical tab, form feed, carriage
/// return and space.
pub open spec fn is_space(b: u8) -> bool {
    b == 32 || (9 <= b && b <= 13)
}

pub open spec fn is_digit(b: u8) -> bool {
    48 <= b && b <= 57
}

/// The text between commas, in order; text without a comma is one field.
pub open spec fn fields(s: Seq<u8>) -> Seq<Seq<u8>>
    decreases s.len(),
{
    if s.len() == 0 {
        seq![Seq::empty()]
    } else {
        let f = fields(s.drop_last());
        if s.last() == 44 {
            f.push(Seq::empty())
        } else {
            f.update(f.len() - 1, f.last().push(s.last()))
        }
    }
}

/// `t` without its leading whitespace.
pub open spec fn trim_start(t: Seq<u8>) -> Seq<u8>
    decreases t.len(),
{
    if t.len() > 0 && is_space(t[0]) {
        trim_start(t.drop_first())
    } else {
        t
    }
}

/// `t` without its trailing whitespace.
pub open spec fn trim_end(t: Seq<u8>) -> Seq<u8>
    decreases t.len(),
{
    if t.len() > 0 && is_space(t.last()) {
        trim_end(t.drop_last())
    } else {
        t
    }
}

pub open spec fn all_digits(d: Seq<u8>) -> bool {
    forall|i: int| 0 <= i < d.len() ==> is_digit(#[trigger] d[i])
}

/// The number that a string of decimal digits writes.
pub open spec fn digits_value(d: Seq<u8>) -> int
    decreases d.len(),
{
    if d.len() == 0 {
        0
    } else {
        digits_value(d.drop_last()) * 10 + (d.last() - 48)
    }
}

/// The integer that `t` writes: an optional `+` or `-`, then one or more
/// decimal digits, and nothing else.
pub open spec fn integer_value(t: Seq<u8>) -> Option<int> {
    if t.len() > 0 && (t[0] == 45 || t[0] == 43) {
        let d = t.drop_first();
        if d.len() > 0 && all_digits(d) {
            Some(
                if t[0] == 45 {
                    -digits_value(d)
                } else {
                    digits_value(d)
                },
            )
        } else {
            None
        }
    } else if t.len() > 0 && all_digits(t) {
        Some(digits_value(t))
    } else {
        None
    }
}

/// The value of one field: the integer it writes between optional
/// whitespace, if that fits in 64 signed bits.
pub open spec fn field_value(t: Seq<u8>) -> Option<i64> {
    match integer_value(trim_end(trim_start(t))) {
        Some(v) => if i64::MIN <= v <= i64::MAX {
            Some(v as i64)
        } else {
            None
        },
        None => None,
    }
}

/// The values of all fields, or the first that is malformed.
pub open spec fn field_values(fs: Seq<Seq<u8>>) -> Result<Seq<i64>, LoadError>
    decreases fs.len(),
{
    if fs.len() == 0 {
        Ok(Seq::empty())
    } else {
        match field_values(fs.drop_last()) {
            Err(e) => Err(e),
            Ok(vs) => match field_value(fs.last()) {
                Some(v) => Ok(vs.push(v)),
                None => Err(LoadError::Malformed((fs.len() - 1) as usize)),
            },
        }
    }
}

/// A program as text: its comma-separated fields, each a signed integer.
pub open spec fn program_spec(s: Seq<u8>) -> Result<Seq<i64>, LoadError> {
    field_values(fields(s))
}

proof fn lemma_digits_prefix(d: Seq<u8>, k: int)
    requires
        all_digits(d),
        0 <= k <= d.len(),
    ensures
        0 <= digits_value(d.subrange(0, k)) <= digits_value(d),
    decreases d.len(),
{
    if k < d.len() {
        let p = d.drop_last();
        assert(p.subrange(0, k) =~= d.subrange(0, k));
        lemma_digits_prefix(p, k);
        lemma_digits_prefix(p, p.len() as int);
        assert(p.subrange(0, p.len() as int) =~= p);
    } else {
        assert(d.subrange(0, k) =~= d);
        if d.len() > 0 {
            lemma_digits_prefix(d.drop_last(), d.len() - 1);
            assert(d.drop_last().subrange(0, d.len() - 1) =~= d.drop_last());
        }
    }
}

fn is_space_byte(b: u8) -> (r: bool)
    ensures
        r == is_space(b),
{
    b == 32 || (9 <= b && b <= 13)
}

/// Reads the field `bytes[lo..hi]`.
fn parse_field(bytes: &[u8], lo: usize, hi: usize) -> (r: Option<i64>)
    requires
        lo <= hi <= bytes@.len(),
    ensures
        r == field_value(bytes@.subrange(lo as int, hi as int)),
{
    let ghost s = bytes@;
    let mut a: usize = lo;
    while a < hi && is_space_byte(bytes[a])
        invariant
            lo <= a <= hi <= s.len(),
            s == bytes@,
            trim_start(s.subrange(lo as int, hi as int)) == trim_start(
                s.subrange(a as int, hi as int),
            ),
        decreases hi - a,
    {
        assert(s.subrange(a as int, hi as int).drop_first() =~= s.subrange(a + 1, hi as int));
        a = a + 1;
    }
    let mut b: usize = hi;
    while b > a && is_space_byte(bytes[b - 1])
        invariant
            lo <= a <= b <= hi <= s.len(),
            s == bytes@,
            trim_end(s.subrange(a as int, hi as int)) == trim_end(s.subrange(a as int, b as int)),
        decreases b - a,
    {
        assert(s.subrange(a as int, b as int).drop_last() =~= s.subrange(a as int, b - 1));
        b = b - 1;
    }
    let ghost t = s.subrange(a as int, b as int);
    assert(trim_end(trim_start(s.subrange(lo as int, hi as int))) == t);
    if a == b {
        return None;
    }
    let first = bytes[a];
    let negative = first == 45;
    let ds: usize = if first == 45 || first == 43 {
        a + 1
    } else {
        a
    };
    let ghost d = s.subrange(ds as int, b as int);
    assert(first == 45 || first == 43 ==> d =~= t.drop_first());
    assert(!(first == 45 || first == 43) ==> d =~= t);
    if ds == b {
        return None;
    }
    let bound: u128 = 0x8000_0000_0000_0000;
    let mut acc: u128 = 0;
    let mut j: usize = ds;
    while j < b
        invariant
            ds <= j <= b <= s.len(),
            s == bytes@,
            d == s.subrange(ds as int, b as int),
            acc == digits_value(s.subrange(ds as int, j as int)),
            all_digits(s.subrange(ds as int, j as int)),
            acc <= bound,
            bound == 0x8000_0000_0000_0000u128,
            lo <= hi,
            trim_end(trim_start(s.subrange(lo as int, hi as int))) == t,
            t.len() > 0,
            d.len() > 0,
            t[0] == 45 || t[0] == 43 ==> d == t.drop_first(),
            !(t[0] == 45 || t[0] == 43) ==> d == t,
        decreases b - j,
    {
        let c = bytes[j];
        if c < 48 || c > 57 {
            assert(!is_digit(d[j - ds]));
            return None;
        }
        assert(s.subrange(ds as int, j + 1).drop_last() =~= s.subrange(ds as int, j as int));
        acc = acc * 10 + (c - 48) as u128;
        j = j + 1;
        if acc > bound {
            proof {
                if all_digits(d) {
                    lemma_digits_prefix(d, j - ds);
                    assert(d.subrange(0, j - ds) =~= s.subrange(ds as int, j as int));
                }
            }
            return None;
        }
    }
    assert(s.subrange(ds as int, j as int) =~= d);
    if negative {
        if acc == bound {
            Some(i64::MIN)
        } else {
            Some(-(acc as i64))
        }
    } else if acc < bound {
        Some(acc as i64)
    } else {
        None
    }
}

/// Reads program text: comma-separated signed decimal integers, each with
/// optional whitespace around it. A malformed field is reported with its
/// index, the first such field, and nothing is loaded.
pub fn parse_program(text: &str) -> (r: Result<Vec<i64>, LoadError>)
    ensures
        match program_spec(text.spec_bytes()) {
            Ok(vs) => r is Ok && r->Ok_0@ == vs,
            Err(e) => r == Err::<Vec<i64>, LoadError>(e),
        },
{
    let bytes = text.as_bytes();
    let ghost s = bytes@;
    let mut values: Vec<i64> = Vec::new();
    let mut failed: Option<usize> = None;
    let ghost mut done: Seq<Seq<u8>> = Seq::empty();
    let mut start: usize = 0;
    let mut i: usize = 0;
    assert(s.subrange(0, 0) =~= Seq::<u8>::empty());
    assert(done.push(s.subrange(0, 0)) =~= seq![Seq::<u8>::empty()]);
    while i < bytes.len()
        invariant
            s == bytes@,
            start <= i <= s.len(),
            failed is None ==> done.len() == values@.len(),
            fields(s.subrange(0, i as int)) == done.push(s.subrange(start as int, i as int)),
            done.len() <= i,
            match failed {
                None => field_values(done) == Ok::<Seq<i64>, LoadError>(values@),
                Some(k) => field_values(done) == Err::<Seq<i64>, LoadError>(
                    LoadError::Malformed(k),
                ),
            },
        decreases s.len() - i,
    {
        let ghost prefix = s.subrange(0, i + 1);
        assert(prefix.drop_last() =~= s.subrange(0, i as int));
        if bytes[i] == 44 {
            let ghost field = s.subrange(start as int, i as int);
            assert(done.push(field).drop_last() =~= done);
            if failed.is_none() {
                match parse_field(bytes, start, i) {
                    Some(v) => {
                        values.push(v);
                        assert(field_values(done.push(field)) == Ok::<Seq<i64>, LoadError>(
                            values@,
                        ));
                    },
                    None => failed = Some(values.len()),
                }
            }
            proof {
                done = done.push(field);
            }
            start = i + 1;
            assert(s.subrange(start as int, i + 1) =~= Seq::<u8>::empty());
        } else {
            assert(s.subrange(start as int, i + 1) =~= s.subrange(start as int, i as int).push(
                s[i as int],
            ));
        }
        i = i + 1;
    }
    assert(s.subrange(0, i as int) =~= s);
    let ghost field = s.subrange(start as int, i as int);
    assert(done.push(field).drop_last() =~= done);
    assert(fields(s) == done.push(field));
    match failed {
        Some(k) => Err(LoadError::Malformed(k)),
        None => match parse_field(bytes, start, i) {
            Some(v) => {
                values.push(v);
                Ok(values)
            },
            None => Err(LoadError::Malformed(values.len())),
        },
    }
}

} // verus!
