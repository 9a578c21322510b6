//! Verified helpers on strings and name lists: character-exact string
//! equality, decimal rendering of an index (for default column names), and
//! first-occurrence lookup of a name.

use vstd::prelude::*;

verus! {

/// Compares two strings character for character.
pub fn str_eq(a: &str, b: &str) -> (r: bool)
    ensures
        r == (a@ == b@),
{
    let na = a.unicode_len();
    let nb = b.unicode_len();
    if na != nb {
        assert(a@ != b@) by {
            assert(a@.len() != b@.len());
        }
        return false;
    }
    let mut i: usize = 0;
    while i < na
        invariant
            na == a@.len(),
            na == b@.len(),
            0 <= i <= na,
            forall|j: int| 0 <= j < i ==> a@[j] == b@[j],
        decreases na - i,
    {
        if a.get_char(i) != b.get_char(i) {
            assert(a@ != b@);
            return false;
        }
        i += 1;
    }
    assert(a@ =~= b@);
    true
}

/// The decimal digit characters of `n`, most significant first.
pub open spec fn dec_str(n: nat) -> Seq<char>
    decreases n,
{
    if n < 10 {
        seq![digit_char(n)]
    } else {
        dec_str(n / 10).push(digit_char(n % 10))
    }
}

/// The character of a single decimal digit.
pub open spec fn digit_char(d: nat) -> char {
    if d == 0 {
        '0'
    } else if d == 1 {
        '1'
    } else if d == 2 {
        '2'
    } else if d == 3 {
        '3'
    } else if d == 4 {
        '4'
    } else if d == 5 {
        '5'
    } else if d == 6 {
        '6'
    } else if d == 7 {
        '7'
    } else if d == 8 {
        '8'
    } else {
        '9'
    }
}

fn digit_str(d: u64) -> (s: &'static str)
    requires
        d < 10,
    ensures
        s@ == seq![digit_char(d as nat)],
{
    proof {
        reveal_strlit("0");
        reveal_strlit("1");
        reveal_strlit("2");
        reveal_strlit("3");
        reveal_strlit("4");
        reveal_strlit("5");
        reveal_strlit("6");
        reveal_strlit("7");
        reveal_strlit("8");
        reveal_strlit("9");
    }
    let s = if d == 0 {
        "0"
    } else if d == 1 {
        "1"
    } else if d == 2 {
        "2"
    } else if d == 3 {
        "3"
    } else if d == 4 {
        "4"
    } else if d == 5 {
        "5"
    } else if d == 6 {
        "6"
    } else if d == 7 {
        "7"
    } else if d == 8 {
        "8"
    } else {
        "9"
    };
    assert(s@ =~= seq![digit_char(d as nat)]);
    s
}

/// Renders `n` in decimal, as the default column names use it.
pub fn usize_to_string(n: usize) -> (s: String)
    ensures
        s@ == dec_str(n as nat),
    decreases n,
{
    let d = digit_str((n % 10) as u64);
    if n < 10 {
        let s = String::from_str(d);
        assert(s@ =~= dec_str(n as nat));
        s
    } else {
        let mut s = usize_to_string(n / 10);
        s.append(d);
        assert(s@ =~= dec_str(n as nat));
        s
    }
}

/// The index of the first occurrence of `n` in `names`, if any.
pub open spec fn first_index_of(names: Seq<Seq<char>>, n: Seq<char>) -> Option<int>
    decreases names.len(),
{
    if names.len() == 0 {
        None
    } else if names[0] == n {
        Some(0int)
    } else {
        match first_index_of(names.skip(1), n) {
            Some(i) => Some(i + 1),
            None => None,
        }
    }
}

/// What `first_index_of` says: a hit is the first one; a miss means the name
/// is nowhere.
pub proof fn lemma_first_index_of(names: Seq<Seq<char>>, n: Seq<char>)
    ensures
        match first_index_of(names, n) {
            Some(i) => 0 <= i < names.len() && names[i] == n && forall|j: int|
                0 <= j < i ==> names[j] != n,
            None => forall|j: int| 0 <= j < names.len() ==> names[j] != n,
        },
    decreases names.len(),
{
    if names.len() > 0 && names[0] != n {
        let rest = names.skip(1);
        lemma_first_index_of(rest, n);
        assert(forall|j: int| 1 <= j < names.len() ==> names[j] == #[trigger] rest[j - 1]);
        match first_index_of(rest, n) {
            Some(i) => {
                assert(names[i + 1] == rest[i]);
                assert forall|j: int| 0 <= j < i + 1 implies names[j] != n by {
                    if j >= 1 {
                        assert(names[j] == rest[j - 1]);
                    }
                }
            },
            None => {
                assert forall|j: int| 0 <= j < names.len() implies names[j] != n by {
                    if j >= 1 {
                        assert(names[j] == rest[j - 1]);
                    }
                }
            },
        }
    }
}

/// The view of a list of names, one character sequence per name.
pub open spec fn names_view(names: Seq<String>) -> Seq<Seq<char>> {
    names.map_values(|s: String| s@)
}

/// Finds the first position of `n` in `names`.
pub fn find_str(names: &Vec<String>, n: &str) -> (r: Option<usize>)
    ensures
        match r {
            Some(i) => first_index_of(names_view(names@), n@) == Some(i as int),
            None => first_index_of(names_view(names@), n@) is None,
        },
{
    proof {
        lemma_first_index_of(names_view(names@), n@);
    }
    let mut i: usize = 0;
    while i < names.len()
        invariant
            0 <= i <= names@.len(),
            forall|j: int| 0 <= j < i ==> names_view(names@)[j] != n@,
            match first_index_of(names_view(names@), n@) {
                Some(k) => 0 <= k < names@.len() && names_view(names@)[k] == n@ && forall|j: int|
                    0 <= j < k ==> names_view(names@)[j] != n@,
                None => forall|j: int| 0 <= j < names@.len() ==> names_view(names@)[j] != n@,
            },
        decreases names@.len() - i,
    {
        let hit = str_eq(names[i].as_str(), n);
        assert(names_view(names@)[i as int] == names@[i as int]@);
        if hit {
            return Some(i);
        }
        i += 1;
    }
    None
}

/// Whether some name occurs twice in the list.
pub open spec fn has_duplicate(names: Seq<Seq<char>>) -> bool {
    exists|i: int, j: int| 0 <= i < j < names.len() && names[i] == names[j]
}

} // verus!
