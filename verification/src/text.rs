//! Text: searching names, writing numbers, and the lines shown on screen.
use crate::flow::AppState;
use vstd::prelude::*;

verus! {

/// Whether `needle` occurs in `hay` as a run of consecutive characters.
pub open spec fn occurs_in(needle: Seq<char>, hay: Seq<char>) -> bool {
    exists|i: int| occurs_at(needle, hay, i)
}

/// Whether `needle` stands in `hay` from place `i` on.
pub open spec fn occurs_at(needle: Seq<char>, hay: Seq<char>, i: int) -> bool {
    &&& 0 <= i
    &&& i + needle.len() <= hay.len()
    &&& hay.subrange(i, i + needle.len()) == needle
}

/// The characters of a string slice.
pub fn chars_of(s: &str) -> (v: Vec<char>)
    ensures
        v@ == s@,
{
    let n: usize = s.unicode_len();
    let mut v: Vec<char> = Vec::new();
    let mut i: usize = 0;
    while i < n
        invariant
            n == s@.len(),
            i <= n,
            v@ == s@.take(i as int),
        decreases n - i,
    {
        v.push(s.get_char(i));
        proof {
            assert(s@.take(i + 1) =~= s@.take(i as int).push(s@[i as int]));
        }
        i += 1;
    }
    proof {
        assert(s@.take(n as int) =~= s@);
    }
    v
}

/// Whether `needle` stands in `hay` from place `at` on.
fn matches_at(hay: &Vec<char>, needle: &Vec<char>, at: usize) -> (r: bool)
    requires
        at + needle@.len() <= hay@.len(),
    ensures
        r == occurs_at(needle@, hay@, at as int),
{
    let m: usize = needle.len();
    let total: usize = hay.len();
    let mut k: usize = 0;
    while k < m
        invariant
            m == needle@.len(),
            total == hay@.len(),
            at + m <= total,
            k <= m,
            forall|j: int| 0 <= j < k ==> hay@[at + j] == needle@[j],
        decreases m - k,
    {
        if hay[at + k] != needle[k] {
            proof {
                let part = hay@.subrange(at as int, at + m);
                assert(part[k as int] == hay@[at + k]);
            }
            return false;
        }
        k += 1;
    }
    proof {
        assert(hay@.subrange(at as int, at + m) =~= needle@);
    }
    true
}

/// Whether `needle` occurs in `hay`. The empty text occurs in every text.
pub fn contains_text(hay: &str, needle: &str) -> (r: bool)
    ensures
        r == occurs_in(needle@, hay@),
{
    let h = chars_of(hay);
    let n = chars_of(needle);
    if n.len() > h.len() {
        return false;
    }
    if n.len() == 0 {
        proof {
            assert(h@.subrange(0, 0) =~= n@);
            assert(occurs_at(n@, h@, 0));
        }
        return true;
    }
    let last: usize = h.len() - n.len();
    let mut i: usize = 0;
    while i <= last
        invariant
            h@ == hay@,
            n@ == needle@,
            0 < n@.len() <= h@.len(),
            h@.len() <= usize::MAX,
            last == h@.len() - n@.len(),
            i <= last + 1,
            forall|p: int| 0 <= p < i ==> !occurs_at(n@, h@, p),
        decreases last + 1 - i,
    {
        if matches_at(&h, &n, i) {
            return true;
        }
        i += 1;
    }
    false
}

/// Whether two texts are the same, character by character.
pub fn same_text(a: &str, b: &str) -> (r: bool)
    ensures
        r == (a@ == b@),
{
    let x = chars_of(a);
    let y = chars_of(b);
    if x.len() != y.len() {
        return false;
    }
    let r = matches_at(&x, &y, 0);
    proof {
        assert(x@.subrange(0, x@.len() as int) =~= x@);
    }
    r
}

/// The character that writes a digit below ten.
pub open spec fn digit_char(d: nat) -> char {
    if d == 0 {
        '0'
    } else if d == 1 {
        '1'
    } else if d == 2 {
        '2'
    } else if d == 3 {
        '3'
    } else if d == 4 {
        '4'
    } else if d == 5 {
        '5'
    } else if d == 6 {
        '6'
    } else if d == 7 {
        '7'
    } else if d == 8 {
        '8'
    } else {
        '9'
    }
}

/// A number written in base ten, without sign or leading zeros.
pub open spec fn decimal(n: nat) -> Seq<char>
    decreases n,
{
    if n < 10 {
        seq![digit_char(n)]
    } else {
        decimal(n / 10).push(digit_char(n % 10))
    }
}

/// The one-character text of a digit.
fn digit_text(d: u64) -> (r: &'static str)
    requires
        d < 10,
    ensures
        r@ == seq![digit_char(d as nat)],
{
    proof {
        reveal_strlit("0");
        reveal_strlit("1");
        reveal_strlit("2");
        reveal_strlit("3");
        reveal_strlit("4");
        reveal_strlit("5");
        reveal_strlit("6");
        reveal_strlit("7");
        reveal_strlit("8");
        reveal_strlit("9");
    }
    let r = if d == 0 {
        "0"
    } else if d == 1 {
        "1"
    } else if d == 2 {
        "2"
    } else if d == 3 {
        "3"
    } else if d == 4 {
        "4"
    } else if d == 5 {
        "5"
    } else if d == 6 {
        "6"
    } else if d == 7 {
        "7"
    } else if d == 8 {
        "8"
    } else {
        "9"
    };
    proof {
        assert(r@ =~= seq![digit_char(d as nat)]);
    }
    r
}

/// Appends `n`, written in base ten, to `out`.
pub fn push_decimal(out: &mut String, n: u64)
    ensures
        final(out)@ == old(out)@ + decimal(n as nat),
    decreases n,
{
    if n >= 10 {
        push_decimal(out, n / 10);
    }
    out.append(digit_text(n % 10));
    proof {
        if n >= 10 {
            assert(old(out)@ + decimal(n as nat / 10) + seq![digit_char(n as nat % 10)] =~= old(
                out,
            )@ + decimal(n as nat / 10).push(digit_char(n as nat % 10)));
        }
    }
}

/// The line shown on entering `state`. After a game, `party_total` animals
/// were brought to the party out of `potential_total`; the game counts as won
/// when exactly one is missing.
pub open spec fn banner_text(state: AppState, party_total: nat, potential_total: nat) -> Seq<
    char,
> {
    match state {
        AppState::MainMenu => "Press any button to start!"@,
        AppState::InGame => "Combine your animal herd and take them to the exit!"@,
        AppState::GameOver => if party_total + 1 == potential_total {
            "WOW! You got all the animals! You win the game for sure! Press any key/button to try again :)"@
        } else {
            "Congrats! You got "@ + decimal(party_total) + " out of a possible "@ + decimal(
                potential_total,
            ) + " animals to the exit! Press any key/button to try again :)"@
        },
    }
}

/// Writes [`banner_text`].
pub fn banner(state: AppState, party_total: u64, potential_total: u64) -> (text: String)
    ensures
        text@ == banner_text(state, party_total as nat, potential_total as nat),
{
    match state {
        AppState::MainMenu => String::from_str("Press any button to start!"),
        AppState::InGame => String::from_str(
            "Combine your animal herd and take them to the exit!",
        ),
        AppState::GameOver => {
            if potential_total >= 1 && party_total == potential_total - 1 {
                String::from_str(
                    "WOW! You got all the animals! You win the game for sure! Press any key/button to try again :)",
                )
            } else {
                let mut text = String::from_str("Congrats! You got ");
                push_decimal(&mut text, party_total);
                text.append(" out of a possible ");
                push_decimal(&mut text, potential_total);
                text.append(" animals to the exit! Press any key/button to try again :)");
                text
            }
        },
    }
}

/// Where the line stands on screen.
#[derive(Clone, Copy, PartialEq, Eq, Structural, Debug, Hash)]
pub enum BannerPlace {
    /// At the edge of the screen, out of the way of the game.
    Edge,
    /// In the middle of the screen.
    Center,
}

/// The line of a running game stands at the edge, every other in the middle.
pub fn banner_place(state: AppState) -> (place: BannerPlace)
    ensures
        place == if state == AppState::InGame {
            BannerPlace::Edge
        } else {
            BannerPlace::Center
        },
{
    match state {
        AppState::InGame => BannerPlace::Edge,
        _ => BannerPlace::Center,
    }
}

} // verus!
