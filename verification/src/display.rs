//! Display projection of the tracker state.
//!
//! Each of the five state fields is rendered as a string: `"(none)"`
//! when the field is empty or was never set, the held keys joined with
//! `" + "` in rank order, and the release streak suffixed with
//! `" (x<count>)"` whenever the count exceeds one.

use vstd::prelude::*;
use vstd::string::StringExecFns;

use crate::keys::Key;

verus! {

/// The placeholder shown for an empty or never-set field.
pub open spec fn none_text() -> Seq<char> {
    "(none)"@
}

/// The decimal digit character for `d < 10`.
pub open spec fn digit_char(d: nat) -> char {
    if d == 0 {
        '0'
    } else if d == 1 {
        '1'
    } else if d == 2 {
        '2'
    } else if d == 3 {
        '3'
    } else if d == 4 {
        '4'
    } else if d == 5 {
        '5'
    } else if d == 6 {
        '6'
    } else if d == 7 {
        '7'
    } else if d == 8 {
        '8'
    } else {
        '9'
    }
}

/// The decimal digits of `n`, most significant first.
pub open spec fn dec_digits(n: nat) -> Seq<char>
    decreases n,
{
    if n < 10 {
        seq![digit_char(n)]
    } else {
        dec_digits(n / 10) + seq![digit_char(n % 10)]
    }
}

/// The names of the keys of `s`, in order, joined with `" + "`.
pub open spec fn join_names(s: Seq<Key>) -> Seq<char>
    decreases s.len(),
{
    if s.len() == 0 {
        Seq::empty()
    } else if s.len() == 1 {
        s[0].name_spec()
    } else {
        join_names(s.drop_last()) + " + "@ + s.last().name_spec()
    }
}

/// What the held-keys line shows for held sequence `held`.
pub open spec fn held_display_spec(held: Seq<Key>) -> Seq<char> {
    if held.len() == 0 {
        none_text()
    } else {
        join_names(held)
    }
}

/// What the last-pressed line shows for last pressed key `o`.
pub open spec fn pressed_display_spec(o: Option<Key>) -> Seq<char> {
    match o {
        None => none_text(),
        Some(k) => k.name_spec(),
    }
}

/// What the last-released line shows: the key name alone while the
/// streak count is one, the name with a `" (x<count>)"` suffix beyond.
pub open spec fn released_display_spec(o: Option<Key>, count: u32) -> Seq<char> {
    match o {
        None => none_text(),
        Some(k) => if count > 1 {
            k.name_spec() + " (x"@ + dec_digits(count as nat) + ")"@
        } else {
            k.name_spec()
        },
    }
}

/// What a text-valued line shows for stored text `t`.
pub open spec fn text_display_spec(t: Seq<char>) -> Seq<char> {
    if t.len() == 0 {
        none_text()
    } else {
        t
    }
}

/// The five read-only display strings of one frame.
pub struct DisplayState {
    pub held_display: String,
    pub last_pressed_display: String,
    pub last_released_display: String,
    pub last_text_display: String,
    pub last_physical_display: String,
}

/// The `"(none)"` placeholder as an owned string.
fn none_string() -> (r: String)
    ensures
        r@ == none_text(),
{
    String::from_str("(none)")
}

/// The decimal digit string for `d < 10`.
fn digit_str(d: u32) -> (r: &'static str)
    requires
        d < 10,
    ensures
        r@ == seq![digit_char(d as nat)],
{
    if d == 0 {
        proof {
            reveal_strlit("0");
            assert("0"@ =~= seq!['0']);
        }
        "0"
    } else if d == 1 {
        proof {
            reveal_strlit("1");
            assert("1"@ =~= seq!['1']);
        }
        "1"
    } else if d == 2 {
        proof {
            reveal_strlit("2");
            assert("2"@ =~= seq!['2']);
        }
        "2"
    } else if d == 3 {
        proof {
            reveal_strlit("3");
            assert("3"@ =~= seq!['3']);
        }
        "3"
    } else if d == 4 {
        proof {
            reveal_strlit("4");
            assert("4"@ =~= seq!['4']);
        }
        "4"
    } else if d == 5 {
        proof {
            reveal_strlit("5");
            assert("5"@ =~= seq!['5']);
        }
        "5"
    } else if d == 6 {
        proof {
            reveal_strlit("6");
            assert("6"@ =~= seq!['6']);
        }
        "6"
    } else if d == 7 {
        proof {
            reveal_strlit("7");
            assert("7"@ =~= seq!['7']);
        }
        "7"
    } else if d == 8 {
        proof {
            reveal_strlit("8");
            assert("8"@ =~= seq!['8']);
        }
        "8"
    } else {
        proof {
            reveal_strlit("9");
            assert("9"@ =~= seq!['9']);
        }
        "9"
    }
}

/// The decimal digits of `n` as an owned string.
pub fn u32_digits(n: u32) -> (r: String)
    ensures
        r@ == dec_digits(n as nat),
    decreases n,
{
    if n < 10 {
        String::from_str(digit_str(n))
    } else {
        let mut s = u32_digits(n / 10);
        s.append(digit_str(n % 10));
        proof {
            assert((n / 10) as nat == (n as nat) / 10);
            assert((n % 10) as nat == (n as nat) % 10);
            assert(s@ =~= dec_digits(n as nat));
        }
        s
    }
}

/// The names of the keys of `held`, in order, joined with `" + "`.
#[verifier::loop_isolation(false)]
fn join_held_names(held: &Vec<Key>) -> (r: String)
    ensures
        r@ == join_names(held@),
{
    let mut s = String::new();
    let mut i: usize = 0;
    while i < held.len()
        invariant
            0 <= i <= held@.len(),
            s@ == join_names(held@.take(i as int)),
        decreases held@.len() - i,
    {
        if i > 0 {
            s.append(" + ");
        }
        s.append(held[i].name());
        proof {
            let t = held@.take(i as int + 1);
            assert(t.drop_last() =~= held@.take(i as int));
            assert(t.last() == held@[i as int]);
            assert(s@ =~= join_names(t));
        }
        i = i + 1;
    }
    proof {
        assert(held@.take(held@.len() as int) =~= held@);
    }
    s
}

/// The held-keys line for the sorted held vector.
pub fn render_held(held: &Vec<Key>) -> (r: String)
    ensures
        r@ == held_display_spec(held@),
{
    if held.len() == 0 {
        none_string()
    } else {
        join_held_names(held)
    }
}

/// The last-pressed line for an optional key.
pub fn render_pressed(o: Option<Key>) -> (r: String)
    ensures
        r@ == pressed_display_spec(o),
{
    match o {
        None => none_string(),
        Some(k) => String::from_str(k.name()),
    }
}

/// The last-released line for an optional key and its streak count.
pub fn render_released(o: Option<Key>, count: u32) -> (r: String)
    ensures
        r@ == released_display_spec(o, count),
{
    match o {
        None => none_string(),
        Some(k) => {
            if count > 1 {
                let mut s = String::from_str(k.name());
                s.append(" (x");
                let digits = u32_digits(count);
                s.append(digits.as_str());
                s.append(")");
                proof {
                    assert(s@ =~= released_display_spec(o, count));
                }
                s
            } else {
                String::from_str(k.name())
            }
        }
    }
}

/// A text-valued line: the text itself, or the placeholder when empty.
pub fn render_text(t: &String) -> (r: String)
    ensures
        r@ == text_display_spec(t@),
{
    if t.as_str().is_empty() {
        none_string()
    } else {
        t.clone()
    }
}

} // verus!
