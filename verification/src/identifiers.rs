//! The identifiers that the language knows from the start (operators and
//! keywords): the constants are their `IdentifierIndex` values, and
//! `known_identifiers` makes the interner that holds them at those indices.

use crate::interner::{interned, interner_get_or_intern, interner_new, Interner};
use vstd::prelude::*;

verus! {

pub const EMPTY_STRING: u32 = 0;
pub const PLUS: u32 = 1;
pub const DASH: u32 = 2;
pub const STAR: u32 = 3;
pub const SLASH: u32 = 4;
pub const EQUAL_TO: u32 = 5;
pub const NOT_EQUAL_TO: u32 = 6;
pub const GREATER_THAN: u32 = 7;
pub const LESS_THAN: u32 = 8;
pub const GREATER_EQUAL: u32 = 9;
pub const LESS_EQUAL: u32 = 10;
pub const AND_AND: u32 = 11;
pub const OR_OR: u32 = 12;
pub const SEMICOLON: u32 = 13;
pub const COLON: u32 = 14;
pub const NOT: u32 = 15;
pub const PLUS_PLUS: u32 = 16;
pub const DASH_DASH: u32 = 17;
pub const TRUE: u32 = 18;
pub const FALSE: u32 = 19;
pub const NEWLINE: u32 = 20;
pub const APPLY: u32 = 21;

/// The texts of the known identifiers, in index order.
pub open spec fn known_identifier_texts() -> Seq<Seq<char>> {
    seq![
        ""@,
        "+"@,
        "-"@,
        "*"@,
        "/"@,
        "=="@,
        "!="@,
        ">"@,
        "<"@,
        ">="@,
        "<="@,
        "&&"@,
        "||"@,
        ";"@,
        ":"@,
        "!"@,
        "++"@,
        "--"@,
        "true"@,
        "false"@,
        "\n"@,
        " "@,
    ]
}

/// Tells the known identifiers apart: their lengths and first characters.
spec fn text_key(s: Seq<char>) -> int {
    s.len() * 1000 + if s.len() > 0 {
        s[0] as int
    } else {
        0
    }
}

/// An interner holding the known identifiers at their indices.
pub fn known_identifiers() -> (r: Interner)
    ensures
        interned(r) == known_identifier_texts(),
{
    proof {
        reveal_strlit("");
        reveal_strlit("+");
        reveal_strlit("-");
        reveal_strlit("*");
        reveal_strlit("/");
        reveal_strlit("==");
        reveal_strlit("!=");
        reveal_strlit(">");
        reveal_strlit("<");
        reveal_strlit(">=");
        reveal_strlit("<=");
        reveal_strlit("&&");
        reveal_strlit("||");
        reveal_strlit(";");
        reveal_strlit(":");
        reveal_strlit("!");
        reveal_strlit("++");
        reveal_strlit("--");
        reveal_strlit("true");
        reveal_strlit("false");
        reveal_strlit("\n");
        reveal_strlit(" ");
    }
    let ghost all = known_identifier_texts();
    let mut interner = interner_new();
    assert(all.take(0) =~= Seq::<Seq<char>>::empty());
    let texts: [&str; 22] = [
        "", "+", "-", "*", "/", "==", "!=", ">", "<", ">=", "<=", "&&", "||", ";", ":", "!",
        "++", "--", "true", "false", "\n", " ",
    ];
    assert(forall|i: int| 0 <= i < 22 ==> #[trigger] texts@[i]@ == all[i]);
    assert(text_key(all[0]) == 0);
    assert(text_key(all[1]) == 1043);
    assert(text_key(all[2]) == 1045);
    assert(text_key(all[3]) == 1042);
    assert(text_key(all[4]) == 1047);
    assert(text_key(all[5]) == 2061);
    assert(text_key(all[6]) == 2033);
    assert(text_key(all[7]) == 1062);
    assert(text_key(all[8]) == 1060);
    assert(text_key(all[9]) == 2062);
    assert(text_key(all[10]) == 2060);
    assert(text_key(all[11]) == 2038);
    assert(text_key(all[12]) == 2124);
    assert(text_key(all[13]) == 1059);
    assert(text_key(all[14]) == 1058);
    assert(text_key(all[15]) == 1033);
    assert(text_key(all[16]) == 2043);
    assert(text_key(all[17]) == 2045);
    assert(text_key(all[18]) == 4116);
    assert(text_key(all[19]) == 5102);
    assert(text_key(all[20]) == 1010);
    assert(text_key(all[21]) == 1032);
    assert forall|i: int, j: int| 0 <= i < j < 22 implies all[i] != all[j] by {
        assert(text_key(all[i]) != text_key(all[j]));
    }
    let mut i: usize = 0;
    while i < 22
        invariant
            i <= 22,
            interned(interner) == all.take(i as int),
            forall|k: int| 0 <= k < 22 ==> #[trigger] texts@[k]@ == all[k],
            forall|a: int, b: int| 0 <= a < b < 22 ==> all[a] != all[b],
            all.len() == 22,
        decreases 22 - i,
    {
        assert(!all.take(i as int).contains(all[i as int])) by {
            if all.take(i as int).contains(all[i as int]) {
                let k = choose|k: int| 0 <= k < i && all.take(i as int)[k] == all[i as int];
                assert(all[k] == all[i as int]);
            }
        }
        interner_get_or_intern(&mut interner, texts[i]);
        assert(all.take(i as int).push(all[i as int]) =~= all.take(i + 1));
        i += 1;
    }
    assert(all.take(22) =~= all);
    interner
}

} // verus!
