//! The JSON the document embeds: the trait map and the timing report. The
//! framing is fixed here — compact objects, keys quoted with quote, backslash
//! and control characters escaped, durations in seconds as shortest exact
//! decimals of whole nanoseconds.
use vstd::prelude::*;
use vstd::std_specs::iter::IteratorSpec;
use vstd::string::StringExecFns;

use crate::perf::PerfResult;
use crate::text::dec_chars;
use crate::text::dec_string;
use crate::text::digit_char;
use crate::text::fixed_chars;
use crate::text::fixed_string;
use crate::text::lemma_pow10_scales;

verus! {

broadcast use vstd::string::next_postcondition, vstd::string::axiom_spec_iter;

pub open spec fn hex_digit(d: nat) -> char {
    if d < 10 {
        digit_char(d)
    } else if d == 10 {
        'a'
    } else if d == 11 {
        'b'
    } else if d == 12 {
        'c'
    } else if d == 13 {
        'd'
    } else if d == 14 {
        'e'
    } else {
        'f'
    }
}

/// How one character is written inside a JSON string.
pub open spec fn escaped_char(c: char) -> Seq<char> {
    if c == '"' {
        seq!['\\', '"']
    } else if c == '\\' {
        seq!['\\', '\\']
    } else if (c as u32) < 32 {
        seq!['\\', 'u', '0', '0', hex_digit((c as u32 / 16) as nat), hex_digit(
            (c as u32 % 16) as nat,
        )]
    } else {
        seq![c]
    }
}

/// A string's characters, escaped.
pub open spec fn json_escaped(s: Seq<char>) -> Seq<char>
    decreases s.len(),
{
    if s.len() == 0 {
        Seq::empty()
    } else {
        json_escaped(s.drop_last()) + escaped_char(s.last())
    }
}

/// A quoted, escaped JSON string.
pub open spec fn json_string_chars(s: Seq<char>) -> Seq<char> {
    seq!['"'] + json_escaped(s) + seq!['"']
}

/// One timing entry: the label and its seconds.
pub open spec fn perf_entry_chars(label: Seq<char>, nanos: u64) -> Seq<char> {
    json_string_chars(label) + seq![':'] + fixed_chars(nanos as nat, 1000000000)
}

/// The timing entries, comma-separated.
pub open spec fn perf_entries_chars(entries: Seq<(Seq<char>, u64)>) -> Seq<char>
    decreases entries.len(),
{
    if entries.len() == 0 {
        Seq::empty()
    } else if entries.len() == 1 {
        perf_entry_chars(entries[0].0, entries[0].1)
    } else {
        perf_entries_chars(entries.drop_last()) + seq![','] + perf_entry_chars(
            entries.last().0,
            entries.last().1,
        )
    }
}

/// The whole timing report object.
pub open spec fn perf_json_chars(entries: Seq<(Seq<char>, u64)>) -> Seq<char> {
    "{\"per_label\":{"@ + perf_entries_chars(entries) + "}}"@
}

/// The trait map object, holding the dot count.
pub open spec fn traits_json_chars(count: u64) -> Seq<char> {
    "{\"Dots Count\":"@ + dec_chars(count as nat) + "}"@
}

/// Relies on std's `FromIterator` for `String` (`collect`): the string holds
/// exactly the characters of the vector.
#[verifier::external_body]
fn chars_to_string(v: &Vec<char>) -> (r: String)
    ensures
        r@ == v@,
{
    v.iter().collect()
}

fn hex_char(d: u32) -> (r: char)
    requires
        d < 16,
    ensures
        r == hex_digit(d as nat),
{
    if d == 0 {
        '0'
    } else if d == 1 {
        '1'
    } else if d == 2 {
        '2'
    } else if d == 3 {
        '3'
    } else if d == 4 {
        '4'
    } else if d == 5 {
        '5'
    } else if d == 6 {
        '6'
    } else if d == 7 {
        '7'
    } else if d == 8 {
        '8'
    } else if d == 9 {
        '9'
    } else if d == 10 {
        'a'
    } else if d == 11 {
        'b'
    } else if d == 12 {
        'c'
    } else if d == 13 {
        'd'
    } else if d == 14 {
        'e'
    } else {
        'f'
    }
}

fn push_escaped(out: &mut Vec<char>, c: char)
    ensures
        final(out)@ == old(out)@ + escaped_char(c),
{
    if c == '"' {
        out.push('\\');
        out.push('"');
    } else if c == '\\' {
        out.push('\\');
        out.push('\\');
    } else {
        let u = c as u32;
        if u < 32 {
            out.push('\\');
            out.push('u');
            out.push('0');
            out.push('0');
            out.push(hex_char(u / 16));
            out.push(hex_char(u % 16));
        } else {
            out.push(c);
        }
    }
    proof {
        assert(final(out)@ =~= old(out)@ + escaped_char(c));
    }
}

/// Writes a label as a quoted, escaped JSON string.
#[verifier::loop_isolation(false)]
fn json_string(s: &str) -> (r: String)
    ensures
        r@ == json_string_chars(s@),
{
    let mut out: Vec<char> = Vec::new();
    out.push('"');
    let mut it = s.chars();
    let ghost mut i: int = 0;
    loop
        invariant
            0 <= i <= s@.len(),
            it.remaining() == s@.skip(i),
            out@ == seq!['"'] + json_escaped(s@.take(i)),
        decreases s@.len() - i,
    {
        let c_opt = it.next();
        match c_opt {
            None => {
                proof {
                    assert(s@.skip(i).len() == 0);
                    assert(s@.take(i) =~= s@);
                }
                break ;
            },
            Some(c) => {
                proof {
                    assert(s@.skip(i)[0] == s@[i]);
                    assert(s@.skip(i).drop_first() =~= s@.skip(i + 1));
                }
                push_escaped(&mut out, c);
                proof {
                    assert(s@.take(i + 1).drop_last() =~= s@.take(i));
                    assert(s@.take(i + 1).last() == s@[i]);
                    assert(out@ =~= seq!['"'] + json_escaped(s@.take(i + 1)));
                    i = i + 1;
                }
            },
        }
    }
    out.push('"');
    let r = chars_to_string(&out);
    proof {
        assert(r@ =~= json_string_chars(s@));
    }
    r
}

impl PerfResult {
    /// The report as JSON: each label mapped to its accumulated seconds.
    #[verifier::loop_isolation(false)]
    pub fn to_json(&self) -> (r: String)
        ensures
            r@ == perf_json_chars(Seq::new(self.per_label@.len(), |i: int| (self.per_label@[i].0@, self.per_label@[i].1))),
    {
        let ghost entries = Seq::new(
            self.per_label@.len(),
            |i: int| (self.per_label@[i].0@, self.per_label@[i].1),
        );
        proof {
            reveal_strlit("{\"per_label\":{");
            reveal_strlit("}}");
            reveal_strlit(":");
            reveal_strlit(",");
        }
        let mut out = String::from_str("{\"per_label\":{");
        let mut i: usize = 0;
        while i < self.per_label.len()
            invariant
                i <= self.per_label@.len(),
                out@ == "{\"per_label\":{"@ + perf_entries_chars(entries.take(i as int)),
            decreases self.per_label@.len() - i,
        {
            if i > 0 {
                out.append(",");
            }
            let piece = json_string(self.per_label[i].0.as_str());
            out.append(piece.as_str());
            out.append(":");
            proof {
                lemma_pow10_scales();
            }
            let secs = fixed_string(self.per_label[i].1, 1000000000);
            out.append(secs.as_str());
            proof {
                assert(","@ =~= seq![',']);
                assert(":"@ =~= seq![':']);
                assert(entries.take(i + 1).drop_last() =~= entries.take(i as int));
                assert(entries.take(i + 1).last() == entries[i as int]);
                assert(out@ =~= "{\"per_label\":{"@ + perf_entries_chars(entries.take(i + 1)));
            }
            i += 1;
        }
        out.append("}}");
        proof {
            assert(entries.take(entries.len() as int) =~= entries);
            assert(out@ =~= perf_json_chars(entries));
        }
        out
    }
}

/// The trait map as JSON.
pub fn traits_json(count: u64) -> (r: String)
    ensures
        r@ == traits_json_chars(count),
{
    proof {
        reveal_strlit("{\"Dots Count\":");
        reveal_strlit("}");
    }
    let mut out = String::from_str("{\"Dots Count\":");
    let d = dec_string(count);
    out.append(d.as_str());
    out.append("}");
    proof {
        assert(out@ =~= traits_json_chars(count));
    }
    out
}

} // verus!
