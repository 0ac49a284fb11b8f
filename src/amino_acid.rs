use vstd::prelude::*;

verus! {

/// One of the fifteen instructions that make up an enzyme.
#[derive(Debug, PartialEq, Eq, Structural, Clone, Copy)]
pub enum AminoAcid {
    Cut,
    Del,
    Swi,
    Mvr,
    Mvl,
    Cop,
    Off,
    Ina,
    Inc,
    Ing,
    Int,
    Rpy,
    Rpu,
    Lpy,
    Lpu,
}

/// The amino acid whose three-letter name is `(a, b, c)`, if any.
pub open spec fn amino_acid_of_letters(a: char, b: char, c: char) -> Option<AminoAcid> {
    if a == 'c' && b == 'u' && c == 't' {
        Some(AminoAcid::Cut)
    } else if a == 'd' && b == 'e' && c == 'l' {
        Some(AminoAcid::Del)
    } else if a == 's' && b == 'w' && c == 'i' {
        Some(AminoAcid::Swi)
    } else if a == 'm' && b == 'v' && c == 'r' {
        Some(AminoAcid::Mvr)
    } else if a == 'm' && b == 'v' && c == 'l' {
        Some(AminoAcid::Mvl)
    } else if a == 'c' && b == 'o' && c == 'p' {
        Some(AminoAcid::Cop)
    } else if a == 'o' && b == 'f' && c == 'f' {
        Some(AminoAcid::Off)
    } else if a == 'i' && b == 'n' && c == 'a' {
        Some(AminoAcid::Ina)
    } else if a == 'i' && b == 'n' && c == 'c' {
        Some(AminoAcid::Inc)
    } else if a == 'i' && b == 'n' && c == 'g' {
        Some(AminoAcid::Ing)
    } else if a == 'i' && b == 'n' && c == 't' {
        Some(AminoAcid::Int)
    } else if a == 'r' && b == 'p' && c == 'y' {
        Some(AminoAcid::Rpy)
    } else if a == 'r' && b == 'p' && c == 'u' {
        Some(AminoAcid::Rpu)
    } else if a == 'l' && b == 'p' && c == 'y' {
        Some(AminoAcid::Lpy)
    } else if a == 'l' && b == 'p' && c == 'u' {
        Some(AminoAcid::Lpu)
    } else {
        None
    }
}

/// The amino acid that a name stands for, if any.
pub open spec fn amino_acid_of_name(s: Seq<char>) -> Option<AminoAcid> {
    if s.len() == 3 {
        amino_acid_of_letters(s[0], s[1], s[2])
    } else {
        None
    }
}

impl AminoAcid {
    /// The three-letter short name.
    pub open spec fn name(self) -> Seq<char> {
        match self {
            AminoAcid::Cut => seq!['c', 'u', 't'],
            AminoAcid::Del => seq!['d', 'e', 'l'],
            AminoAcid::Swi => seq!['s', 'w', 'i'],
            AminoAcid::Mvr => seq!['m', 'v', 'r'],
            AminoAcid::Mvl => seq!['m', 'v', 'l'],
            AminoAcid::Cop => seq!['c', 'o', 'p'],
            AminoAcid::Off => seq!['o', 'f', 'f'],
            AminoAcid::Ina => seq!['i', 'n', 'a'],
            AminoAcid::Inc => seq!['i', 'n', 'c'],
            AminoAcid::Ing => seq!['i', 'n', 'g'],
            AminoAcid::Int => seq!['i', 'n', 't'],
            AminoAcid::Rpy => seq!['r', 'p', 'y'],
            AminoAcid::Rpu => seq!['r', 'p', 'u'],
            AminoAcid::Lpy => seq!['l', 'p', 'y'],
            AminoAcid::Lpu => seq!['l', 'p', 'u'],
        }
    }

    /// The amino acid of a three-letter short name, which must be one.
    pub fn from_string(amino_acid_str: &str) -> (r: AminoAcid)
        requires
            amino_acid_of_name(amino_acid_str@) is Some,
        ensures
            Some(r) == amino_acid_of_name(amino_acid_str@),
    {
        AminoAcid::parse(amino_acid_str).unwrap()
    }

    /// Reads a three-letter short name; any other text is refused.
    pub fn parse(amino_acid_str: &str) -> (r: Option<AminoAcid>)
        ensures
            r == amino_acid_of_name(amino_acid_str@),
    {
        if amino_acid_str.unicode_len() != 3 {
            return None;
        }
        AminoAcid::from_letters(
            amino_acid_str.get_char(0),
            amino_acid_str.get_char(1),
            amino_acid_str.get_char(2),
        )
    }

    /// Reads a name given as a sequence of characters.
    pub fn from_chars(cs: &Vec<char>) -> (r: Option<AminoAcid>)
        ensures
            r == amino_acid_of_name(cs@),
    {
        if cs.len() != 3 {
            return None;
        }
        AminoAcid::from_letters(cs[0], cs[1], cs[2])
    }

    pub fn from_letters(a: char, b: char, c: char) -> (r: Option<AminoAcid>)
        ensures
            r == amino_acid_of_letters(a, b, c),
    {
        match (a, b, c) {
            ('c', 'u', 't') => Some(AminoAcid::Cut),
            ('d', 'e', 'l') => Some(AminoAcid::Del),
            ('s', 'w', 'i') => Some(AminoAcid::Swi),
            ('m', 'v', 'r') => Some(AminoAcid::Mvr),
            ('m', 'v', 'l') => Some(AminoAcid::Mvl),
            ('c', 'o', 'p') => Some(AminoAcid::Cop),
            ('o', 'f', 'f') => Some(AminoAcid::Off),
            ('i', 'n', 'a') => Some(AminoAcid::Ina),
            ('i', 'n', 'c') => Some(AminoAcid::Inc),
            ('i', 'n', 'g') => Some(AminoAcid::Ing),
            ('i', 'n', 't') => Some(AminoAcid::Int),
            ('r', 'p', 'y') => Some(AminoAcid::Rpy),
            ('r', 'p', 'u') => Some(AminoAcid::Rpu),
            ('l', 'p', 'y') => Some(AminoAcid::Lpy),
            ('l', 'p', 'u') => Some(AminoAcid::Lpu),
            _ => None,
        }
    }

    /// The short name as text.
    pub fn to_str(&self) -> (r: &'static str)
        ensures
            r@ == self.name(),
    {
        match self {
            AminoAcid::Cut => {
                proof {
                    reveal_strlit("cut");
                }
                assert("cut"@ =~= self.name());
                "cut"
            },
            AminoAcid::Del => {
                proof {
                    reveal_strlit("del");
                }
                assert("del"@ =~= self.name());
                "del"
            },
            AminoAcid::Swi => {
                proof {
                    reveal_strlit("swi");
                }
                assert("swi"@ =~= self.name());
                "swi"
            },
            AminoAcid::Mvr => {
                proof {
                    reveal_strlit("mvr");
                }
                assert("mvr"@ =~= self.name());
                "mvr"
            },
            AminoAcid::Mvl => {
                proof {
                    reveal_strlit("mvl");
                }
                assert("mvl"@ =~= self.name());
                "mvl"
            },
            AminoAcid::Cop => {
                proof {
                    reveal_strlit("cop");
                }
                assert("cop"@ =~= self.name());
                "cop"
            },
            AminoAcid::Off => {
                proof {
                    reveal_strlit("off");
                }
                assert("off"@ =~= self.name());
                "off"
            },
            AminoAcid::Ina => {
                proof {
                    reveal_strlit("ina");
                }
                assert("ina"@ =~= self.name());
                "ina"
            },
            AminoAcid::Inc => {
                proof {
                    reveal_strlit("inc");
                }
                assert("inc"@ =~= self.name());
                "inc"
            },
            AminoAcid::Ing => {
                proof {
                    reveal_strlit("ing");
                }
                assert("ing"@ =~= self.name());
                "ing"
            },
            AminoAcid::Int => {
                proof {
                    reveal_strlit("int");
                }
                assert("int"@ =~= self.name());
                "int"
            },
            AminoAcid::Rpy => {
                proof {
                    reveal_strlit("rpy");
                }
                assert("rpy"@ =~= self.name());
                "rpy"
            },
            AminoAcid::Rpu => {
                proof {
                    reveal_strlit("rpu");
                }
                assert("rpu"@ =~= self.name());
                "rpu"
            },
            AminoAcid::Lpy => {
                proof {
                    reveal_strlit("lpy");
                }
                assert("lpy"@ =~= self.name());
                "lpy"
            },
            AminoAcid::Lpu => {
                proof {
                    reveal_strlit("lpu");
                }
                assert("lpu"@ =~= self.name());
                "lpu"
            },
        }
    }
}

/// A short name reads back as its amino acid, and holds no hyphen.
pub proof fn lemma_name_round_trip(a: AminoAcid)
    ensures
        amino_acid_of_name(a.name()) == Some(a),
        a.name().len() == 3,
        !a.name().contains('-'),
{
    assert(a.name()[0] != '-' && a.name()[1] != '-' && a.name()[2] != '-');
}

} // verus!
