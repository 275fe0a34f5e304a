//! The command line of the organizer itself.
use vstd::prelude::*;
use vstd::string::StrSliceExecFns;
use vstd::string::StringExecFns;
use crate::text::is_ascii_digit;

verus! {

/// The quality level used where none is given or it does not parse.
pub const DEFAULT_QUALITY: u8 = 80;

pub open spec fn all_digits(s: Seq<char>) -> bool {
    forall|i: int| 0 <= i < s.len() ==> is_ascii_digit(#[trigger] s[i])
}

/// The value of a string of decimal digits.
pub open spec fn digits_value(s: Seq<char>) -> nat
    decreases s.len(),
{
    if s.len() == 0 {
        0
    } else {
        digits_value(s.drop_last()) * 10 + ((s.last() as u32) - 48) as nat
    }
}

/// The text after an optional leading plus sign.
pub open spec fn unsigned_digits(s: Seq<char>) -> Seq<char> {
    if s.len() > 0 && s[0] == '+' {
        s.drop_first()
    } else {
        s
    }
}

/// What `str::parse::<u8>` gives on `s`: an optional plus sign, then one or
/// more decimal digits whose value is at most 255.
pub open spec fn parsed_u8(s: Seq<char>) -> Option<u8> {
    let d = unsigned_digits(s);
    if d.len() > 0 && all_digits(d) && digits_value(d) <= 255 {
        Some(digits_value(d) as u8)
    } else {
        None
    }
}

/// The flag that asks for a converted image beside each moved raw file.
pub open spec fn convert_flag() -> Seq<char> {
    "--convert-to-jpg"@
}

/// How the organizer was asked to run.
pub struct Options {
    pub source: String,
    pub destination: String,
    pub convert: bool,
    pub quality: u8,
}

/// Why the command line was refused.
#[derive(Clone, Copy, Debug, PartialEq, Eq, Structural)]
pub enum UsageError {
    /// The source or the destination directory was not given.
    MissingDirectories,
}

/// The quality level that the command line asks for: the last argument read
/// as an 8-bit unsigned number, or the default where it is none.
pub open spec fn requested_quality(args: Seq<Seq<char>>) -> u8 {
    if args.contains(convert_flag()) && args.len() > 0 {
        match parsed_u8(args.last()) {
            Some(q) => q,
            None => DEFAULT_QUALITY,
        }
    } else {
        DEFAULT_QUALITY
    }
}

proof fn lemma_take_one_more(s: Seq<char>, i: int)
    requires
        0 <= i < s.len(),
    ensures
        s.take(i + 1).drop_last() == s.take(i),
        s.take(i + 1).last() == s[i],
{
    assert(s.take(i + 1).drop_last() =~= s.take(i));
}

/// What `str::parse::<u8>` gives on `s`.
pub fn parse_u8(s: &str) -> (r: Option<u8>)
    ensures
        r == parsed_u8(s@),
{
    let n = s.unicode_len();
    let start: usize = if n > 0 && s.get_char(0) == '+' {
        1
    } else {
        0
    };
    let ghost d = unsigned_digits(s@);
    assert(d =~= s@.subrange(start as int, n as int));
    if start == n {
        return None;
    }
    // The value of the digits read so far, held at 256 once it is larger.
    let mut v: u32 = 0;
    let mut i: usize = start;
    assert(d.take(0).len() == 0);
    while i < n
        invariant
            start <= i <= n,
            n == s@.len(),
            d == s@.subrange(start as int, n as int),
            d == unsigned_digits(s@),
            all_digits(d.take(i - start)),
            v as nat == if digits_value(d.take(i - start)) <= 256 {
                digits_value(d.take(i - start))
            } else {
                256
            },
        decreases n - i,
    {
        let c = s.get_char(i);
        let ghost k = i - start;
        proof {
            lemma_take_one_more(d, k);
        }
        assert(d[k] == s@[i as int]);
        if !('0' <= c && c <= '9') {
            assert(!is_ascii_digit(d[k]));
            assert(!all_digits(d));
            return None;
        }
        let digit = (c as u32) - 48;
        assert(digits_value(d.take(k + 1)) == digits_value(d.take(k)) * 10 + digit);
        if v >= 256 {
            v = 256;
        } else {
            v = v * 10 + digit;
            if v > 256 {
                v = 256;
            }
        }
        i = i + 1;
        assert(all_digits(d.take(i - start))) by {
            assert forall|j: int| 0 <= j < d.take(i - start).len() implies is_ascii_digit(
                #[trigger] d.take(i - start)[j],
            ) by {
                if j < k {
                    assert(d.take(k)[j] == d[j]);
                }
            }
        }
    }
    assert(d.take(n - start) =~= d);
    if v <= 255 {
        Some(v as u8)
    } else {
        None
    }
}

/// Reads the organizer's command line: the program name, the source
/// directory, the destination directory and, optionally, the conversion flag
/// followed by a quality level.
pub fn parse_options(args: &Vec<String>) -> (r: Result<Options, UsageError>)
    ensures
        args@.len() < 3 <==> r is Err,
        r matches Ok(o) ==> {
            &&& o.source@ == args@[1]@
            &&& o.destination@ == args@[2]@
            &&& o.convert == args@.map_values(|a: String| a@).contains(convert_flag())
            &&& o.quality == requested_quality(args@.map_values(|a: String| a@))
        },
{
    if args.len() < 3 {
        return Err(UsageError::MissingDirectories);
    }
    let ghost views = args@.map_values(|a: String| a@);
    let flag = String::from_str("--convert-to-jpg");
    let mut convert = false;
    let mut i: usize = 0;
    while i < args.len()
        invariant
            i <= args@.len(),
            views == args@.map_values(|a: String| a@),
            flag@ == convert_flag(),
            convert <==> exists|j: int| 0 <= j < i && views[j] == convert_flag(),
        decreases args@.len() - i,
    {
        assert(views[i as int] == args@[i as int]@);
        if args[i] == flag {
            convert = true;
        }
        proof {
            if views[i as int] == convert_flag() {
                assert(convert);
            }
        }
        i = i + 1;
    }
    assert(convert == views.contains(convert_flag())) by {
        if views.contains(convert_flag()) {
            let j = choose|j: int| 0 <= j < views.len() && views[j] == convert_flag();
            assert(views[j] == convert_flag());
        }
    }
    let quality = if convert {
        match parse_u8(args[args.len() - 1].as_str()) {
            Some(q) => q,
            None => DEFAULT_QUALITY,
        }
    } else {
        DEFAULT_QUALITY
    };
    assert(views.last() == args@[args@.len() - 1]@);
    Ok(
        Options {
            source: args[1].clone(),
            destination: args[2].clone(),
            convert,
            quality,
        },
    )
}

} // verus!
