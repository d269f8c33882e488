//! Laws that relate the line grammar, the rendering and the entry encoding of
//! upgrade events.

use crate::text::{
    after_first_word, decimal, first_word, has_prefix, is_blank, is_digit, is_whitespace,
    is_word, lemma_decimal, lemma_first_word, lemma_trim_end_blank, lemma_trim_start_blank,
    nth_word, parse_u8, trim_start,
};
use crate::upgrade_event::{decimal_padded, decode, encode, parse_event, strip_ends, EventModel};
use vstd::prelude::*;

verus! {

/// Reading a byte's decimal form gives the byte back.
pub proof fn law_decimal_parses(n: u8)
    ensures
        parse_u8(decimal(n as nat)) == Some(n),
{
    lemma_decimal(n as nat);
    let d = decimal(n as nat);
    assert(is_digit(d[0]));
}

/// The keys that name a variant differ from one another.
proof fn lemma_keys_differ()
    ensures
        "percent"@ != "processing_package"@,
        "setting_up"@ != "processing_package"@,
        "setting_up"@ != "percent"@,
        "over"@ != "processing_package"@,
        "over"@ != "percent"@,
        "over"@ != "setting_up"@,
{
    reveal_strlit("processing_package");
    reveal_strlit("percent");
    reveal_strlit("setting_up");
    reveal_strlit("over");
    assert("percent"@.len() != "processing_package"@.len());
    assert("setting_up"@.len() != "processing_package"@.len());
    assert("setting_up"@.len() != "percent"@.len());
    assert("over"@.len() != "processing_package"@.len());
    assert("over"@.len() != "percent"@.len());
    assert("over"@.len() != "setting_up"@.len());
}

/// Decoding the entries that encode an event gives the event back, for every
/// event.
pub proof fn law_decode_encode(e: EventModel)
    ensures
        decode(encode(e)) == Some(e),
{
    lemma_keys_differ();
    let entries = encode(e);
    match e {
        EventModel::Processing { package } => {
            assert(entries[0] == ("processing_package"@, package));
        },
        EventModel::Progress { percent } => {
            law_decimal_parses(percent);
            assert(entries[0] == ("percent"@, decimal(percent as nat)));
        },
        EventModel::SettingUp { package } => {
            assert(entries[0] == ("setting_up"@, package));
        },
        EventModel::Unpacking { package, version, over } => {
            assert(entries[0] == ("over"@, over));
            assert(entries[1] == ("version"@, version));
            assert(entries[2] == ("unpacking"@, package));
        },
    }
}

/// A progress line is a field of three characters, two characters that close
/// it, and whitespace alone behind them. Where the two are `%]`, the line
/// reports the byte that the field writes behind its padding, and nothing
/// where the field writes none. Where they are anything else, it reports
/// nothing.
pub proof fn law_progress_field(field: Seq<char>, close: Seq<char>, trailing: Seq<char>)
    requires
        field.len() == 3,
        close.len() == 2,
        !is_whitespace(close[1]),
        is_blank(trailing),
    ensures
        parse_event("Progress: ["@ + field + close + trailing) == if close == "%]"@ {
            match parse_u8(trim_start(field)) {
                Some(percent) => Some(EventModel::Progress { percent }),
                None => None,
            }
        } else {
            None
        },
{
    reveal_strlit("Progress: [");
    let prefix = "Progress: ["@;
    let body = field + close;
    let line = prefix + field + close + trailing;
    assert(line.take(prefix.len() as int) =~= prefix);
    assert(line.skip(prefix.len() as int) =~= body + trailing);
    lemma_trim_end_blank(body, trailing);
    assert(body.take(3) =~= field);
    assert(body.skip(3) =~= close);
}

/// A progress line that shows a percentage in a field of three characters,
/// padded with spaces on the left, reports that percentage, whatever
/// whitespace follows the line. This holds of every byte, the percentages from
/// 0 to 100 among them.
pub proof fn law_progress_line(percent: u8, trailing: Seq<char>)
    requires
        is_blank(trailing),
    ensures
        parse_event("Progress: ["@ + decimal_padded(percent) + "%]"@ + trailing) == Some(
            EventModel::Progress { percent },
        ),
{
    let field = decimal_padded(percent);
    let digits = decimal(percent as nat);
    reveal_strlit("%]");
    lemma_decimal(percent as nat);
    law_progress_field(field, "%]"@, trailing);
    law_decimal_parses(percent);
    if percent < 10 {
        lemma_trim_start_blank(seq![' ', ' '], digits);
    } else if percent < 100 {
        lemma_trim_start_blank(seq![' '], digits);
    }
    assert(is_digit(digits[0]));
    assert(!is_whitespace(digits[0]));
    assert(trim_start(digits) == digits);
}

/// An unpacking line names a package, a version in parentheses, one more word,
/// and the replaced version in parentheses. It reports the package and the two
/// versions without their parentheses where each version has more than two
/// characters, and nothing otherwise.
pub proof fn law_unpacking_line(
    package: Seq<char>,
    version: Seq<char>,
    skipped: Seq<char>,
    over: Seq<char>,
)
    requires
        is_word(package),
        is_word(version),
        is_word(skipped),
        is_word(over),
    ensures
        parse_event(
            "Unpacking "@ + package + seq![' ', '('] + version + seq![')', ' '] + skipped + seq![
                ' ',
                '(',
            ] + over + seq![')'],
        ) == if version.len() > 2 && over.len() > 2 {
            Some(EventModel::Unpacking { package, version, over })
        } else {
            None
        },
{
    reveal_strlit("Unpacking ");
    reveal_strlit("Progress: [");
    reveal_strlit("Processing triggers for ");
    reveal_strlit("Setting up ");
    let prefix = "Unpacking "@;
    let v = seq!['('] + version + seq![')'];
    let o = seq!['('] + over + seq![')'];
    let r3 = seq![' '] + o;
    let r2 = seq![' '] + skipped + r3;
    let r1 = seq![' '] + v + r2;
    let rest = package + r1;
    let line = prefix + package + seq![' ', '('] + version + seq![')', ' '] + skipped + seq![
        ' ',
        '(',
    ] + over + seq![')'];
    assert(line =~= prefix + rest);
    assert(line.take(prefix.len() as int) =~= prefix);
    assert(line.skip(prefix.len() as int) =~= rest);
    assert(line[0] == 'U');
    assert(!has_prefix(line, "Progress: ["@)) by {
        if has_prefix(line, "Progress: ["@) {
            assert(line.take(11)[0] == 'P');
        }
    }
    assert(!has_prefix(line, "Processing triggers for "@)) by {
        if has_prefix(line, "Processing triggers for "@) {
            assert(line.take(24)[0] == 'P');
        }
    }
    assert(!has_prefix(line, "Setting up "@)) by {
        if has_prefix(line, "Setting up "@) {
            assert(line.take(11)[0] == 'S');
        }
    }
    assert(is_word(v));
    assert(is_word(o));
    reveal_with_fuel(nth_word, 4);
    lemma_first_word(package, r1);
    assert(r1 =~= seq![' '] + (v + r2));
    assert(r2 =~= seq![' '] + (skipped + r3));
    lemma_trim_start_blank(seq![' '], v + r2);
    lemma_first_word(v, r2);
    assert(first_word(r1) == Some(v) && after_first_word(r1) == r2);
    lemma_trim_start_blank(seq![' '], skipped + r3);
    lemma_first_word(skipped, r3);
    assert(first_word(r2) == Some(skipped) && after_first_word(r2) == r3);
    lemma_trim_start_blank(seq![' '], o);
    lemma_first_word(o, Seq::empty());
    assert(o + Seq::<char>::empty() =~= o);
    assert(first_word(r3) == Some(o));
    assert(nth_word(rest, 0) == Some(package));
    assert(nth_word(rest, 1) == Some(v));
    assert(nth_word(rest, 3) == Some(o));
    assert(strip_ends(v) =~= version);
    assert(strip_ends(o) =~= over);
}

} // verus!
