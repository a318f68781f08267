//! The keys that an action can be bound to, their labels, and parsing a key name.

use vstd::prelude::*;
use vstd::string::*;
use crate::text::{
    ascii_lower, eq_ignore_case, first_non_ws_from, is_ws, last_non_ws_before, str_eq_ignore_case, trim, trim_str,
};

verus! {

/// A key that can be bound to an action: Space, Tab, Enter and the letters A to Z.
#[derive(Clone, Copy, Debug, PartialEq, Eq, Hash, Structural)]
pub enum Key {
    Space,
    Tab,
    Enter,
    A,
    B,
    C,
    D,
    E,
    F,
    G,
    H,
    I,
    J,
    K,
    L,
    M,
    N,
    O,
    P,
    Q,
    R,
    S,
    T,
    U,
    V,
    W,
    X,
    Y,
    Z,
}

/// The label of a key, as shown to the user and written to the settings file.
pub open spec fn key_label(k: Key) -> Seq<char> {
    match k {
        Key::Space => seq!['S', 'p', 'a', 'c', 'e'],
        Key::Tab => seq!['T', 'a', 'b'],
        Key::Enter => seq!['E', 'n', 't', 'e', 'r'],
        Key::A => seq!['A'],
        Key::B => seq!['B'],
        Key::C => seq!['C'],
        Key::D => seq!['D'],
        Key::E => seq!['E'],
        Key::F => seq!['F'],
        Key::G => seq!['G'],
        Key::H => seq!['H'],
        Key::I => seq!['I'],
        Key::J => seq!['J'],
        Key::K => seq!['K'],
        Key::L => seq!['L'],
        Key::M => seq!['M'],
        Key::N => seq!['N'],
        Key::O => seq!['O'],
        Key::P => seq!['P'],
        Key::Q => seq!['Q'],
        Key::R => seq!['R'],
        Key::S => seq!['S'],
        Key::T => seq!['T'],
        Key::U => seq!['U'],
        Key::V => seq!['V'],
        Key::W => seq!['W'],
        Key::X => seq!['X'],
        Key::Y => seq!['Y'],
        Key::Z => seq!['Z'],
    }
}

/// The bindable keys, in the order in which they are offered.
pub open spec fn bindable_seq() -> Seq<Key> {
    seq![Key::Space, Key::Tab, Key::Enter, Key::A, Key::B, Key::C, Key::D, Key::E, Key::F, Key::G, Key::H, Key::I, Key::J, Key::K, Key::L, Key::M, Key::N, Key::O, Key::P, Key::Q, Key::R, Key::S, Key::T, Key::U, Key::V, Key::W, Key::X, Key::Y, Key::Z]
}

/// The position of a key in `bindable_seq()`.
pub open spec fn key_index(k: Key) -> int {
    match k {
        Key::Space => 0,
        Key::Tab => 1,
        Key::Enter => 2,
        Key::A => 3,
        Key::B => 4,
        Key::C => 5,
        Key::D => 6,
        Key::E => 7,
        Key::F => 8,
        Key::G => 9,
        Key::H => 10,
        Key::I => 11,
        Key::J => 12,
        Key::K => 13,
        Key::L => 14,
        Key::M => 15,
        Key::N => 16,
        Key::O => 17,
        Key::P => 18,
        Key::Q => 19,
        Key::R => 20,
        Key::S => 21,
        Key::T => 22,
        Key::U => 23,
        Key::V => 24,
        Key::W => 25,
        Key::X => 26,
        Key::Y => 27,
        Key::Z => 28,
    }
}

/// A label for a key.
pub trait KeyDisplayExt {
    fn label(self) -> &'static str;
}

impl KeyDisplayExt for Key {
    fn label(self) -> (r: &'static str)
        ensures
            r@ == key_label(self),
    {
        match self {
            Key::Space => {
                proof {
                    reveal_strlit("Space");
                }
                "Space"
            },
            Key::Tab => {
                proof {
                    reveal_strlit("Tab");
                }
                "Tab"
            },
            Key::Enter => {
                proof {
                    reveal_strlit("Enter");
                }
                "Enter"
            },
            Key::A => {
                proof {
                    reveal_strlit("A");
                }
                "A"
            },
            Key::B => {
                proof {
                    reveal_strlit("B");
                }
                "B"
            },
            Key::C => {
                proof {
                    reveal_strlit("C");
                }
                "C"
            },
            Key::D => {
                proof {
                    reveal_strlit("D");
                }
                "D"
            },
            Key::E => {
                proof {
                    reveal_strlit("E");
                }
                "E"
            },
            Key::F => {
                proof {
                    reveal_strlit("F");
                }
                "F"
            },
            Key::G => {
                proof {
                    reveal_strlit("G");
                }
                "G"
            },
            Key::H => {
                proof {
                    reveal_strlit("H");
                }
                "H"
            },
            Key::I => {
                proof {
                    reveal_strlit("I");
                }
                "I"
            },
            Key::J => {
                proof {
                    reveal_strlit("J");
                }
                "J"
            },
            Key::K => {
                proof {
                    reveal_strlit("K");
                }
                "K"
            },
            Key::L => {
                proof {
                    reveal_strlit("L");
                }
                "L"
            },
            Key::M => {
                proof {
                    reveal_strlit("M");
                }
                "M"
            },
            Key::N => {
                proof {
                    reveal_strlit("N");
                }
                "N"
            },
            Key::O => {
                proof {
                    reveal_strlit("O");
                }
                "O"
            },
            Key::P => {
                proof {
                    reveal_strlit("P");
                }
                "P"
            },
            Key::Q => {
                proof {
                    reveal_strlit("Q");
                }
                "Q"
            },
            Key::R => {
                proof {
                    reveal_strlit("R");
                }
                "R"
            },
            Key::S => {
                proof {
                    reveal_strlit("S");
                }
                "S"
            },
            Key::T => {
                proof {
                    reveal_strlit("T");
                }
                "T"
            },
            Key::U => {
                proof {
                    reveal_strlit("U");
                }
                "U"
            },
            Key::V => {
                proof {
                    reveal_strlit("V");
                }
                "V"
            },
            Key::W => {
                proof {
                    reveal_strlit("W");
                }
                "W"
            },
            Key::X => {
                proof {
                    reveal_strlit("X");
                }
                "X"
            },
            Key::Y => {
                proof {
                    reveal_strlit("Y");
                }
                "Y"
            },
            Key::Z => {
                proof {
                    reveal_strlit("Z");
                }
                "Z"
            },
        }
    }
}

/// The keys that an action can be bound to, in the order in which they are offered.
pub fn bindable_keys() -> (r: Vec<Key>)
    ensures
        r@ == bindable_seq(),
{
    vec![Key::Space, Key::Tab, Key::Enter, Key::A, Key::B, Key::C, Key::D, Key::E, Key::F, Key::G, Key::H, Key::I, Key::J, Key::K, Key::L, Key::M, Key::N, Key::O, Key::P, Key::Q, Key::R, Key::S, Key::T, Key::U, Key::V, Key::W, Key::X, Key::Y, Key::Z]
}

/// Every key is offered by `bindable_keys`, at its own position.
pub proof fn lemma_key_is_bindable(k: Key)
    ensures
        0 <= key_index(k) < bindable_seq().len(),
        bindable_seq()[key_index(k)] == k,
{
}

/// Two keys whose labels match, ignoring the case of letters, are the same key.
pub proof fn lemma_labels_distinct(k1: Key, k2: Key)
    requires
        eq_ignore_case(key_label(k1), key_label(k2)),
    ensures
        k1 == k2,
{
    let l1 = key_label(k1);
    let l2 = key_label(k2);
    assert(ascii_lower(l1[0]) == ascii_lower(l2[0]));
    if l1.len() > 1 {
        assert(ascii_lower(l1[1]) == ascii_lower(l2[1]));
    }
}

/// A key's label reads back as that key: the label has no surrounding whitespace, matches
/// itself, and matches no other key's label.
pub proof fn lemma_label_reads_back(k: Key)
    ensures
        trim(key_label(k)) == key_label(k),
        eq_ignore_case(key_label(k), trim(key_label(k))),
        forall|k2: Key| eq_ignore_case(#[trigger] key_label(k2), trim(key_label(k))) ==> k2 == k,
{
    let l = key_label(k);
    assert(!is_ws(l[0]));
    assert(!is_ws(l[l.len() - 1]));
    assert(first_non_ws_from(l, 0) == 0);
    assert(last_non_ws_before(l, 0, l.len() as int) == l.len());
    assert(l.subrange(0, l.len() as int) =~= l);
    assert forall|k2: Key| eq_ignore_case(#[trigger] key_label(k2), trim(key_label(k))) implies k2 == k by {
        lemma_labels_distinct(k2, k);
    }
}

/// The key that a key name names: the key whose label equals the trimmed name, ignoring the
/// case of letters (there is at most one, by `lemma_labels_distinct`).
pub open spec fn key_named(value: Seq<char>) -> Option<Key> {
    if exists|k: Key| eq_ignore_case(#[trigger] key_label(k), trim(value)) {
        Some(choose|k: Key| eq_ignore_case(#[trigger] key_label(k), trim(value)))
    } else {
        None
    }
}

/// A key whose label matches the trimmed name is the key that the name names.
pub proof fn lemma_key_named(k: Key, value: Seq<char>)
    requires
        eq_ignore_case(key_label(k), trim(value)),
    ensures
        key_named(value) == Some(k),
{
    let k2 = choose|k2: Key| eq_ignore_case(#[trigger] key_label(k2), trim(value));
    assert(eq_ignore_case(key_label(k2), trim(value)));
    let l1 = key_label(k);
    let l2 = key_label(k2);
    let t = trim(value);
    assert forall|i: int| 0 <= i < l1.len() implies ascii_lower(#[trigger] l1[i]) == ascii_lower(l2[i]) by {
        assert(ascii_lower(l1[i]) == ascii_lower(t[i]));
        assert(ascii_lower(l2[i]) == ascii_lower(t[i]));
    }
    lemma_labels_distinct(k, k2);
}

/// The letter keys are labelled by their letters: the key at position `3 + i` of the offered
/// keys is labelled by the `i`-th capital letter, and the name of that letter, in either
/// case, names that key.
pub proof fn lemma_letter_keys(i: int)
    requires
        0 <= i < 26,
    ensures
        key_label(bindable_seq()[3 + i]) == seq![((65 + i) as u8) as char],
        key_named(seq![((65 + i) as u8) as char]) == Some(bindable_seq()[3 + i]),
        key_named(seq![((97 + i) as u8) as char]) == Some(bindable_seq()[3 + i]),
{
    let k = bindable_seq()[3 + i];
    assert(key_index(k) == 3 + i);
    assert(key_label(k) =~= seq![((65 + i) as u8) as char]);
    lemma_label_reads_back(k);
    lemma_key_named(k, key_label(k));
    let lower = seq![((97 + i) as u8) as char];
    assert(!is_ws(lower[0]));
    assert(first_non_ws_from(lower, 0) == 0);
    assert(last_non_ws_before(lower, 0, 1) == 1);
    assert(lower.subrange(0, 1) =~= lower);
    assert(eq_ignore_case(key_label(k), trim(lower)));
    lemma_key_named(k, lower);
}

/// The keys that are not letters are labelled by their names: `Space`, `Tab` and `Enter`.
pub proof fn lemma_named_keys()
    ensures
        key_label(bindable_seq()[0]) == "Space"@,
        key_label(bindable_seq()[1]) == "Tab"@,
        key_label(bindable_seq()[2]) == "Enter"@,
{
    reveal_strlit("Space");
    reveal_strlit("Tab");
    reveal_strlit("Enter");
    assert(key_label(bindable_seq()[0]) =~= "Space"@);
    assert(key_label(bindable_seq()[1]) =~= "Tab"@);
    assert(key_label(bindable_seq()[2]) =~= "Enter"@);
}

/// The message for a key name that names no bindable key.
pub open spec fn unsupported_key_message(value: Seq<char>) -> Seq<char> {
    "Unsupported key binding `"@ + value + "`"@
}

/// Reads a key name: the bindable key whose label equals the trimmed text, ignoring the case
/// of letters.
pub fn parse_key(value: &str) -> (r: Result<Key, String>)
    ensures
        match r {
            Ok(k) => eq_ignore_case(key_label(k), trim(value@)) && key_named(value@) == Some(k),
            Err(e) => {
                &&& key_named(value@) is None
                &&& forall|k: Key| !eq_ignore_case(#[trigger] key_label(k), trim(value@))
                &&& e@ == unsupported_key_message(value@)
            },
        },
{
    let normalized = trim_str(value);
    let keys = bindable_keys();
    let mut i: usize = 0;
    while i < keys.len()
        invariant
            keys@ == bindable_seq(),
            i <= keys.len(),
            normalized@ == trim(value@),
            forall|j: int| 0 <= j < i ==> !eq_ignore_case(key_label(#[trigger] keys@[j]), normalized@),
        decreases keys.len() - i,
    {
        let k = keys[i];
        if str_eq_ignore_case(k.label(), normalized) {
            proof {
                lemma_key_named(k, value@);
            }
            return Ok(k);
        }
        i = i + 1;
    }
    assert forall|k: Key| !eq_ignore_case(#[trigger] key_label(k), trim(value@)) by {
        lemma_key_is_bindable(k);
        assert(keys@[key_index(k)] == k);
    }
    let mut e = String::new();
    e.append("Unsupported key binding `");
    e.append(value);
    e.append("`");
    Err(e)
}

/// The bindable keys that are not in `unavailable`, in offering order.
pub open spec fn available_keys(unavailable: Seq<Key>) -> Seq<Key> {
    bindable_seq().filter(|k: Key| !unavailable.contains(k))
}

/// The keys that a binding can still take: the bindable keys other than `unavailable_keys`.
pub fn available_bindable_keys(unavailable_keys: &Vec<Key>) -> (r: Vec<Key>)
    ensures
        r@ == available_keys(unavailable_keys@),
{
    let keys = bindable_keys();
    let ghost pred = |k: Key| !unavailable_keys@.contains(k);
    let mut r: Vec<Key> = Vec::new();
    let mut i: usize = 0;
    assert(keys@.take(0).filter(pred) =~= Seq::empty()) by {
        reveal(Seq::filter);
    }
    while i < keys.len()
        invariant
            keys@ == bindable_seq(),
            i <= keys@.len(),
            pred == (|k: Key| !unavailable_keys@.contains(k)),
            r@ == keys@.take(i as int).filter(pred),
        decreases keys@.len() - i,
    {
        let k = keys[i];
        let mut taken = false;
        let mut j: usize = 0;
        while j < unavailable_keys.len()
            invariant
                j <= unavailable_keys@.len(),
                taken == exists|a: int| 0 <= a < j && unavailable_keys@[a] == k,
            decreases unavailable_keys@.len() - j,
        {
            if unavailable_keys[j] == k {
                taken = true;
            }
            j = j + 1;
        }
        assert(taken == unavailable_keys@.contains(k));
        proof {
            keys@.take(i as int).lemma_filter_push(k, pred);
        }
        assert(keys@.take(i + 1) =~= keys@.take(i as int).push(k));
        if !taken {
            r.push(k);
        }
        i = i + 1;
    }
    assert(keys@.take(keys@.len() as int) =~= keys@);
    r
}

} // verus!
