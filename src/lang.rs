use vstd::prelude::*;

verus! {

/// The two languages every logical text exists in.
#[derive(Clone, Copy, Debug, PartialEq, Eq, Structural)]
pub enum Lang {
    En,
    Fr,
}

impl Lang {
    pub open spec fn other_spec(self) -> Lang {
        match self {
            Lang::En => Lang::Fr,
            Lang::Fr => Lang::En,
        }
    }

    /// The language that a text in `self` is translated into.
    pub fn other(self) -> (r: Lang)
        ensures
            r == self.other_spec(),
    {
        match self {
            Lang::En => Lang::Fr,
            Lang::Fr => Lang::En,
        }
    }

    pub open spec fn code_spec(self) -> Seq<char> {
        match self {
            Lang::En => seq!['e', 'n'],
            Lang::Fr => seq!['f', 'r'],
        }
    }

    /// The two-letter code of the language.
    pub fn code(self) -> (r: String)
        ensures
            r@ == self.code_spec(),
    {
        let mut v: Vec<char> = Vec::new();
        match self {
            Lang::En => {
                v.push('e');
                v.push('n');
            },
            Lang::Fr => {
                v.push('f');
                v.push('r');
            },
        }
        assert(v@ =~= self.code_spec());
        crate::chars::string_of(v.as_slice())
    }

    /// The language that a request names: `fr` is French, and every other
    /// code falls back to English.
    pub fn from_code(code: &str) -> (r: Lang)
        ensures
            r == (if code@ == seq!['f', 'r'] { Lang::Fr } else { Lang::En }),
    {
        if code.unicode_len() == 2 && code.get_char(0) == 'f' && code.get_char(1) == 'r' {
            assert(code@ =~= seq!['f', 'r']);
            Lang::Fr
        } else {
            Lang::En
        }
    }
}

} // verus!
