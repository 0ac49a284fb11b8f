use vstd::prelude::*;

verus! {

/// One of the four letters of a strand.
#[derive(Debug, PartialEq, Eq, Structural, Hash, Clone, Copy)]
pub enum Base {
    C,
    G,
    T,
    A,
}

/// The two classes of bases.
#[derive(Debug, PartialEq, Eq, Structural, Clone, Copy)]
pub enum BaseType {
    Purine,
    Pyrimidine,
}

/// An ordered pair of bases, the unit of translation.
pub type Duplet = (Base, Base);

/// The base that a letter stands for, if any.
pub open spec fn base_of_char(c: char) -> Option<Base> {
    if c == 'A' {
        Some(Base::A)
    } else if c == 'C' {
        Some(Base::C)
    } else if c == 'G' {
        Some(Base::G)
    } else if c == 'T' {
        Some(Base::T)
    } else {
        None
    }
}

/// The base that a one-letter text stands for, if any.
pub open spec fn base_of_text(s: Seq<char>) -> Option<Base> {
    if s.len() == 1 {
        base_of_char(s[0])
    } else {
        None
    }
}

impl Base {
    /// Watson-Crick pairing: A with T, C with G.
    pub open spec fn complement(self) -> Base {
        match self {
            Base::C => Base::G,
            Base::G => Base::C,
            Base::T => Base::A,
            Base::A => Base::T,
        }
    }

    pub open spec fn letter(self) -> char {
        match self {
            Base::C => 'C',
            Base::G => 'G',
            Base::T => 'T',
            Base::A => 'A',
        }
    }

    pub open spec fn base_type(self) -> BaseType {
        match self {
            Base::A | Base::G => BaseType::Purine,
            Base::C | Base::T => BaseType::Pyrimidine,
        }
    }

    /// The base of a one-letter text, which must be a base letter.
    pub fn from_string(base_str: &str) -> (r: Base)
        requires
            base_of_text(base_str@) is Some,
        ensures
            Some(r) == base_of_text(base_str@),
    {
        Base::parse(base_str).unwrap()
    }

    /// Reads a single base letter; any other text is refused.
    pub fn parse(base_str: &str) -> (r: Option<Base>)
        ensures
            r == base_of_text(base_str@),
    {
        if base_str.unicode_len() != 1 {
            return None;
        }
        Base::from_char(base_str.get_char(0))
    }

    pub fn from_char(c: char) -> (r: Option<Base>)
        ensures
            r == base_of_char(c),
    {
        match c {
            'A' => Some(Base::A),
            'C' => Some(Base::C),
            'G' => Some(Base::G),
            'T' => Some(Base::T),
            _ => None,
        }
    }

    pub fn is_type(&self, base_type: BaseType) -> (r: bool)
        ensures
            r == (self.base_type() == base_type),
    {
        match base_type {
            BaseType::Purine => self.is_purine(),
            BaseType::Pyrimidine => self.is_pyrimidine(),
        }
    }

    pub fn is_purine(&self) -> (r: bool)
        ensures
            r == (self.base_type() == BaseType::Purine),
            r == (*self == Base::A || *self == Base::G),
    {
        match self {
            Base::A | Base::G => true,
            _ => false,
        }
    }

    pub fn is_pyrimidine(&self) -> (r: bool)
        ensures
            r == (self.base_type() == BaseType::Pyrimidine),
            r == (*self == Base::C || *self == Base::T),
    {
        match self {
            Base::C | Base::T => true,
            _ => false,
        }
    }

    /// The letter as text.
    pub fn to_str(&self) -> (r: &'static str)
        ensures
            r@ == seq![self.letter()],
    {
        match self {
            Base::C => {
                proof {
                    reveal_strlit("C");
                }
                assert("C"@ =~= seq!['C']);
                "C"
            },
            Base::G => {
                proof {
                    reveal_strlit("G");
                }
                assert("G"@ =~= seq!['G']);
                "G"
            },
            Base::T => {
                proof {
                    reveal_strlit("T");
                }
                assert("T"@ =~= seq!['T']);
                "T"
            },
            Base::A => {
                proof {
                    reveal_strlit("A");
                }
                assert("A"@ =~= seq!['A']);
                "A"
            },
        }
    }

    pub fn get_complement(&self) -> (r: Base)
        ensures
            r == self.complement(),
    {
        match self {
            Base::C => Base::G,
            Base::G => Base::C,
            Base::T => Base::A,
            Base::A => Base::T,
        }
    }
}

/// Complementing twice gives back the base.
pub proof fn lemma_complement_involution(b: Base)
    ensures
        b.complement().complement() == b,
{
}

} // verus!
