//! The benchmark's cases, modes and text handling.

use crate::error::{outcome, refused, Error, Refusal};
use crate::tensor::{numel_result, Tensor};
use crate::text::{
    ascii_lower, lowered, number_of, number_upto, parse_number, parse_upto, same_text, to_chars,
};
use vstd::prelude::*;

verus! {

/// How results are printed.
#[derive(Copy, Clone, Debug, PartialEq, Eq, Structural)]
pub enum OutputMode {
    Table,
    Csv,
}

impl OutputMode {
    /// The mode that the value of `ML_OUTPUT` asks for: a table unless it is
    /// `csv`, in any case.
    pub fn from_env(value: Option<&str>) -> (r: Self)
        ensures
            r == (if value matches Some(v) && ascii_lower(v@) == "csv"@ {
                OutputMode::Csv
            } else {
                OutputMode::Table
            }),
    {
        match value {
            Some(v) => if same_text(lowered(v).as_str(), "csv") {
                OutputMode::Csv
            } else {
                OutputMode::Table
            },
            None => OutputMode::Table,
        }
    }
}

/// How many shapes a sweep covers.
#[derive(Copy, Clone, Debug, PartialEq, Eq, Structural)]
pub enum SweepMode {
    Smoke,
    Standard,
    Full,
}

impl SweepMode {
    /// The mode that a normalized name stands for.
    pub open spec fn named(name: Seq<char>) -> Option<SweepMode> {
        if name == "smoke"@ {
            Some(SweepMode::Smoke)
        } else if name == "standard"@ {
            Some(SweepMode::Standard)
        } else if name == "full"@ {
            Some(SweepMode::Full)
        } else {
            None
        }
    }

    /// The mode that the value of `ML_SWEEP` asks for, in any case; else the
    /// default.
    pub fn from_env(value: Option<&str>, default: Self) -> (r: Self)
        ensures
            r == (match value {
                Some(v) => match Self::named(ascii_lower(v@)) {
                    Some(mode) => mode,
                    None => default,
                },
                None => default,
            }),
    {
        match value {
            None => default,
            Some(v) => {
                let name: String = lowered(v);
                if same_text(name.as_str(), "smoke") {
                    SweepMode::Smoke
                } else if same_text(name.as_str(), "standard") {
                    SweepMode::Standard
                } else if same_text(name.as_str(), "full") {
                    SweepMode::Full
                } else {
                    default
                }
            }
        }
    }
}

/// The number that a setting stands for; the default where it is not set or
/// is no number.
pub fn env_u32(value: Option<&str>, default: u32) -> (r: u32)
    ensures
        r == (match value {
            Some(v) => match number_of(v@) {
                Some(n) => n,
                None => default,
            },
            None => default,
        }),
{
    match value {
        Some(v) => match parse_number(&to_chars(v)) {
            Some(n) => n,
            None => default,
        },
        None => default,
    }
}

/// The count that a setting stands for; the default where it is not set or is
/// no number.
pub fn env_usize(value: Option<&str>, default: usize) -> (r: usize)
    ensures
        r == (match value {
            Some(v) => match number_upto(v@, usize::MAX as u64) {
                Some(n) => n as usize,
                None => default,
            },
            None => default,
        }),
{
    match value {
        Some(v) => match parse_upto(&to_chars(v), usize::MAX as u64) {
            Some(n) => n as usize,
            None => default,
        },
        None => default,
    }
}

/// Whether a setting is on: `1`, or `true` in any case.
pub fn env_bool(value: Option<&str>) -> (r: bool)
    ensures
        r == (value matches Some(v) && (v@ == "1"@ || ascii_lower(v@) == "true"@)),
{
    match value {
        Some(v) => same_text(v, "1") || same_text(lowered(v).as_str(), "true"),
        None => false,
    }
}

/// One shape of a sweep.
#[derive(Copy, Clone, Debug)]
pub struct BenchCase {
    pub label: &'static str,
    pub b: u32,
    pub m: u32,
    pub n: u32,
    pub k: u32,
}

/// The shapes of a sweep.
pub open spec fn cases_of(mode: SweepMode) -> Seq<BenchCase> {
    match mode {
        SweepMode::Smoke => seq![
            BenchCase { label: "smoke 128^3 B=1", b: 1, m: 128, n: 128, k: 128 },
            BenchCase { label: "smoke 256^3 B=1", b: 1, m: 256, n: 256, k: 256 },
        ],
        SweepMode::Standard => seq![
            BenchCase { label: "square 512^3   B=1", b: 1, m: 512, n: 512, k: 512 },
            BenchCase { label: "square 1024^3  B=1", b: 1, m: 1024, n: 1024, k: 1024 },
            BenchCase { label: "square 2048^3  B=1", b: 1, m: 2048, n: 2048, k: 2048 },
            BenchCase { label: "batched 8x1024^2", b: 8, m: 1024, n: 1024, k: 1024 },
            BenchCase { label: "tall   4096x1024x1024", b: 1, m: 4096, n: 1024, k: 1024 },
            BenchCase { label: "wide   1024x4096x1024", b: 1, m: 1024, n: 4096, k: 1024 },
            BenchCase { label: "odd   1023x1025x1027", b: 1, m: 1023, n: 1025, k: 1027 },
        ],
        SweepMode::Full => seq![
            BenchCase { label: "square 512^3   B=1", b: 1, m: 512, n: 512, k: 512 },
            BenchCase { label: "square 1024^3  B=1", b: 1, m: 1024, n: 1024, k: 1024 },
            BenchCase { label: "square 2048^3  B=1", b: 1, m: 2048, n: 2048, k: 2048 },
            BenchCase { label: "square 4096^3  B=1", b: 1, m: 4096, n: 4096, k: 4096 },
            BenchCase { label: "batched 32x1024^2", b: 32, m: 1024, n: 1024, k: 1024 },
            BenchCase { label: "batched 8x2048^2", b: 8, m: 2048, n: 2048, k: 2048 },
            BenchCase { label: "tall   8192x1024x1024", b: 1, m: 8192, n: 1024, k: 1024 },
            BenchCase { label: "wide   1024x8192x1024", b: 1, m: 1024, n: 8192, k: 1024 },
            BenchCase { label: "thin K 4096x4096x512", b: 1, m: 4096, n: 4096, k: 512 },
            BenchCase { label: "fat  K 1024x1024x8192", b: 1, m: 1024, n: 1024, k: 8192 },
            BenchCase { label: "odd   1023x1025x1027", b: 1, m: 1023, n: 1025, k: 1027 },
        ],
    }
}

/// The shapes of a sweep: two small ones, a representative set, or that at
/// full size.
pub fn sweep_cases(mode: SweepMode) -> (r: Vec<BenchCase>)
    ensures
        r@ == cases_of(mode),
{
    let mut cases: Vec<BenchCase> = Vec::new();
    match mode {
        SweepMode::Smoke => {
            cases.push(BenchCase { label: "smoke 128^3 B=1", b: 1, m: 128, n: 128, k: 128 });
            cases.push(BenchCase { label: "smoke 256^3 B=1", b: 1, m: 256, n: 256, k: 256 });
        }
        SweepMode::Standard => {
            cases.push(BenchCase { label: "square 512^3   B=1", b: 1, m: 512, n: 512, k: 512 });
            cases.push(BenchCase { label: "square 1024^3  B=1", b: 1, m: 1024, n: 1024, k: 1024 });
            cases.push(BenchCase { label: "square 2048^3  B=1", b: 1, m: 2048, n: 2048, k: 2048 });
            cases.push(BenchCase { label: "batched 8x1024^2", b: 8, m: 1024, n: 1024, k: 1024 });
            cases.push(BenchCase { label: "tall   4096x1024x1024", b: 1, m: 4096, n: 1024, k: 1024 });
            cases.push(BenchCase { label: "wide   1024x4096x1024", b: 1, m: 1024, n: 4096, k: 1024 });
            cases.push(BenchCase { label: "odd   1023x1025x1027", b: 1, m: 1023, n: 1025, k: 1027 });
        }
        SweepMode::Full => {
            cases.push(BenchCase { label: "square 512^3   B=1", b: 1, m: 512, n: 512, k: 512 });
            cases.push(BenchCase { label: "square 1024^3  B=1", b: 1, m: 1024, n: 1024, k: 1024 });
            cases.push(BenchCase { label: "square 2048^3  B=1", b: 1, m: 2048, n: 2048, k: 2048 });
            cases.push(BenchCase { label: "square 4096^3  B=1", b: 1, m: 4096, n: 4096, k: 4096 });
            cases.push(BenchCase { label: "batched 32x1024^2", b: 32, m: 1024, n: 1024, k: 1024 });
            cases.push(BenchCase { label: "batched 8x2048^2", b: 8, m: 2048, n: 2048, k: 2048 });
            cases.push(BenchCase { label: "tall   8192x1024x1024", b: 1, m: 8192, n: 1024, k: 1024 });
            cases.push(BenchCase { label: "wide   1024x8192x1024", b: 1, m: 1024, n: 8192, k: 1024 });
            cases.push(BenchCase { label: "thin K 4096x4096x512", b: 1, m: 4096, n: 4096, k: 512 });
            cases.push(BenchCase { label: "fat  K 1024x1024x8192", b: 1, m: 1024, n: 1024, k: 8192 });
            cases.push(BenchCase { label: "odd   1023x1025x1027", b: 1, m: 1023, n: 1025, k: 1027 });
        }
    }
    assert(cases@ =~= cases_of(mode));
    cases
}

/// Whether a field has to be quoted: it holds a comma, a quote or a newline.
pub open spec fn needs_quotes(value: Seq<char>) -> bool {
    value.contains(',') || value.contains('"') || value.contains('\n')
}

/// `value` with every quote doubled.
pub open spec fn quotes_doubled(value: Seq<char>) -> Seq<char>
    decreases value.len(),
{
    if value.len() == 0 {
        Seq::empty()
    } else if value.last() == '"' {
        quotes_doubled(value.drop_last()).push('"').push('"')
    } else {
        quotes_doubled(value.drop_last()).push(value.last())
    }
}

/// A value as a field of a comma-separated line.
pub open spec fn csv_field(value: Seq<char>) -> Seq<char> {
    if needs_quotes(value) {
        seq!['"'] + quotes_doubled(value) + seq!['"']
    } else {
        value
    }
}

fn holds(chars: &[char], c: char) -> (r: bool)
    ensures
        r == chars@.contains(c),
{
    let mut i: usize = 0;
    while i < chars.len()
        invariant
            i <= chars@.len(),
            forall|j: int| 0 <= j < i ==> chars@[j] != c,
        decreases chars.len() - i,
    {
        if chars[i] == c {
            return true;
        }
        i = i + 1;
    }
    false
}

/// A value as a field of a comma-separated line: quoted only where it has to
/// be.
pub fn csv_escape(value: &str) -> (r: String)
    ensures
        r@ == csv_field(value@),
{
    let chars: Vec<char> = to_chars(value);
    let mut out: String = String::new();
    if holds(&chars, ',') || holds(&chars, '"') || holds(&chars, '\n') {
        out.push('"');
        let mut i: usize = 0;
        assert(chars@.take(0) =~= Seq::empty());
        while i < chars.len()
            invariant
                i <= chars@.len(),
                out@ =~= seq!['"'] + quotes_doubled(chars@.take(i as int)),
            decreases chars.len() - i,
        {
            proof {
                let next = chars@.take(i + 1);
                assert(next.drop_last() =~= chars@.take(i as int));
                assert(next.last() == chars@[i as int]);
            }
            if chars[i] == '"' {
                out.push('"');
            }
            out.push(chars[i]);
            i = i + 1;
        }
        assert(chars@.take(i as int) =~= chars@);
        out.push('"');
        assert(out@ =~= csv_field(value@));
    } else {
        crate::text::push_text(&mut out, value);
        assert(out@ =~= csv_field(value@));
    }
    out
}

/// `s` with every doubled quote single: what a reader makes of a quoted
/// field.
pub open spec fn quotes_halved(s: Seq<char>) -> Seq<char>
    decreases s.len(),
{
    if s.len() == 0 {
        Seq::empty()
    } else if s.len() >= 2 && s.last() == '"' && s[s.len() - 2] == '"' {
        quotes_halved(s.drop_last().drop_last()).push('"')
    } else {
        quotes_halved(s.drop_last()).push(s.last())
    }
}

/// A quoted field reads back as the value that was written.
pub proof fn quoted_field_reads_back(value: Seq<char>)
    ensures
        quotes_halved(quotes_doubled(value)) == value,
        needs_quotes(value) ==> csv_field(value).subrange(1, csv_field(value).len() - 1)
            == quotes_doubled(value),
        !needs_quotes(value) ==> csv_field(value) == value,
    decreases value.len(),
{
    let d = quotes_doubled(value);
    if needs_quotes(value) {
        assert(csv_field(value).subrange(1, csv_field(value).len() - 1) =~= d);
    }
    if value.len() > 0 {
        let front = value.drop_last();
        let fd = quotes_doubled(front);
        quoted_field_reads_back(front);
        if value.last() == '"' {
            assert(d.drop_last().drop_last() =~= fd);
            assert(quotes_halved(d) =~= front.push('"'));
        } else {
            assert(d.drop_last() =~= fd);
            assert(quotes_halved(d) =~= front.push(value.last()));
        }
        assert(front.push(value.last()) =~= value);
    } else {
        assert(quotes_halved(d) =~= value);
    }
}

/// The host elements of a tensor of this shape.
pub fn host_len(shape: &[u32]) -> (r: Result<usize, Error>)
    ensures
        outcome(r) == (match numel_result(shape@) {
            Err(e) => Err(e),
            Ok(n) => if n > usize::MAX {
                Err(refused(Refusal::HostLength))
            } else {
                Ok(n as usize)
            },
        }),
{
    match Tensor::numel_checked(shape) {
        Err(e) => Err(e),
        Ok(n) => if n > usize::MAX as u64 {
            Err(Error::new(Refusal::HostLength))
        } else {
            Ok(n as usize)
        },
    }
}

} // verus!
