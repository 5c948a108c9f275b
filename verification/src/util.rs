//! Small shared helpers: log severity levels, string equality, time
//! formatting, and the codec allow-list used when filtering files.

use vstd::prelude::*;

verus! {

/// Severity of a message shown to the user.
pub enum LogType {
    Info,
    Warning,
    Error,
}

/// Equality of two string slices, character for character.
pub fn str_eq(a: &str, b: &str) -> (r: bool)
    ensures
        r == (a@ == b@),
{
    let x = a.to_owned();
    let y = b.to_owned();
    x == y
}

/// The digit character for a value below ten.
pub open spec fn spec_digit_char(d: int) -> char {
    if d == 0 {
        '0'
    } else if d == 1 {
        '1'
    } else if d == 2 {
        '2'
    } else if d == 3 {
        '3'
    } else if d == 4 {
        '4'
    } else if d == 5 {
        '5'
    } else if d == 6 {
        '6'
    } else if d == 7 {
        '7'
    } else if d == 8 {
        '8'
    } else {
        '9'
    }
}

/// The decimal digits of a non-negative number, most significant first.
pub open spec fn spec_decimal(n: int) -> Seq<char>
    decreases n,
{
    if n < 10 {
        seq![spec_digit_char(n)]
    } else {
        spec_decimal(n / 10) + seq![spec_digit_char(n % 10)]
    }
}

fn digit_str(d: u64) -> (r: &'static str)
    requires
        d < 10,
    ensures
        r@ == seq![spec_digit_char(d as int)],
{
    if d == 0 {
        proof {
            reveal_strlit("0");
            assert("0"@ =~= seq!['0']);
        }
        "0"
    } else if d == 1 {
        proof {
            reveal_strlit("1");
            assert("1"@ =~= seq!['1']);
        }
        "1"
    } else if d == 2 {
        proof {
            reveal_strlit("2");
            assert("2"@ =~= seq!['2']);
        }
        "2"
    } else if d == 3 {
        proof {
            reveal_strlit("3");
            assert("3"@ =~= seq!['3']);
        }
        "3"
    } else if d == 4 {
        proof {
            reveal_strlit("4");
            assert("4"@ =~= seq!['4']);
        }
        "4"
    } else if d == 5 {
        proof {
            reveal_strlit("5");
            assert("5"@ =~= seq!['5']);
        }
        "5"
    } else if d == 6 {
        proof {
            reveal_strlit("6");
            assert("6"@ =~= seq!['6']);
        }
        "6"
    } else if d == 7 {
        proof {
            reveal_strlit("7");
            assert("7"@ =~= seq!['7']);
        }
        "7"
    } else if d == 8 {
        proof {
            reveal_strlit("8");
            assert("8"@ =~= seq!['8']);
        }
        "8"
    } else {
        proof {
            reveal_strlit("9");
            assert("9"@ =~= seq!['9']);
        }
        "9"
    }
}

/// The decimal rendering of a number.
pub fn decimal_string(n: u64) -> (r: String)
    ensures
        r@ == spec_decimal(n as int),
    decreases n,
{
    if n < 10 {
        digit_str(n).to_owned()
    } else {
        let mut s = decimal_string(n / 10);
        s.append(digit_str(n % 10));
        s
    }
}

/// The textual form of an uptime: hour, minute and second parts, each
/// shown only when it is non-zero.
pub open spec fn spec_format_time(total: u64) -> Seq<char> {
    let seconds = total as int % 60;
    let minutes = (total as int / 60) % 60;
    let hours = (total as int / 60 / 60) % 60;
    (if hours > 0 {
        spec_decimal(hours) + "h "@
    } else {
        Seq::<char>::empty()
    }) + (if minutes > 0 {
        spec_decimal(minutes) + "m "@
    } else {
        Seq::<char>::empty()
    }) + (if seconds > 0 {
        spec_decimal(seconds) + "s"@
    } else {
        Seq::<char>::empty()
    })
}

/// Renders an uptime, given in seconds, as text such as a count of
/// hours, then minutes, then seconds, omitting the parts that are zero.
pub fn format_time(total: u64) -> (r: String)
    ensures
        r@ == spec_format_time(total),
{
    let seconds = total % 60;
    let minutes = (total / 60) % 60;
    let hours = (total / 60 / 60) % 60;

    let mut time = String::new();
    if hours > 0 {
        let part = decimal_string(hours);
        time.append(part.as_str());
        time.append("h ");
    }
    if minutes > 0 {
        let part = decimal_string(minutes);
        time.append(part.as_str());
        time.append("m ");
    }
    if seconds > 0 {
        let part = decimal_string(seconds);
        time.append(part.as_str());
        time.append("s");
    }
    proof {
        assert(time@ =~= spec_format_time(total));
    }
    time
}

/// The part of a path after its last separator: the file's own name.
pub open spec fn spec_file_name(path: Seq<char>) -> Seq<char>
    decreases path.len(),
{
    if path.len() == 0 {
        path
    } else if path.last() == '/' {
        Seq::<char>::empty()
    } else {
        spec_file_name(path.drop_last()) + seq![path.last()]
    }
}

proof fn lemma_file_name_suffix(s: Seq<char>, cut: int)
    requires
        0 <= cut <= s.len(),
        forall|j: int| cut <= j < s.len() ==> s[j] != '/',
        cut > 0 ==> s[cut - 1] == '/',
    ensures
        spec_file_name(s) == s.subrange(cut, s.len() as int),
    decreases s.len(),
{
    if cut == s.len() {
        if s.len() == 0 {
            assert(spec_file_name(s) =~= s.subrange(cut, s.len() as int));
        } else {
            assert(s.last() == '/');
            assert(spec_file_name(s) =~= s.subrange(cut, s.len() as int));
        }
    } else {
        assert(s.last() != '/');
        lemma_file_name_suffix(s.drop_last(), cut);
        assert(s.drop_last().subrange(cut, s.len() - 1) =~= s.subrange(cut, s.len() - 1));
        assert(s.subrange(cut, s.len() - 1) + seq![s.last()] =~= s.subrange(
            cut,
            s.len() as int,
        ));
    }
}

/// Extracts the file name of a path: what follows the last separator.
pub fn file_name(path: &str) -> (r: String)
    ensures
        r@ == spec_file_name(path@),
{
    let len = path.unicode_len();
    let mut cut = len;
    while cut > 0 && path.get_char(cut - 1) != '/'
        invariant
            cut <= len,
            len == path@.len(),
            forall|j: int| cut <= j < len ==> path@[j] != '/',
        decreases cut,
    {
        cut -= 1;
    }
    let tail = path.substring_char(cut, len);
    proof {
        lemma_file_name_suffix(path@, cut as int);
    }
    tail.to_owned()
}

/// The file extensions the playback output can decode.
pub open spec fn spec_supported_codec(ext: Seq<char>) -> bool {
    ext == "mp3"@ || ext == "mp4"@ || ext == "wav"@ || ext == "ogg"@ || ext == "flac"@
}

/// Whether a file extension names a codec the playback output can decode.
pub fn is_supported_codec(extension: &str) -> (r: bool)
    ensures
        r == spec_supported_codec(extension@),
{
    str_eq(extension, "mp3") || str_eq(extension, "mp4") || str_eq(extension, "wav")
        || str_eq(extension, "ogg") || str_eq(extension, "flac")
}

} // verus!
