//! The value of an INFO line of a variant header, and its text form.
use vstd::prelude::*;
use vstd::string::StringExecFns;
use vstd::string::StrSliceExecFns;

verus! {

/// How many values an INFO field holds.
#[derive(Clone, Copy, Debug, PartialEq, Eq, Structural)]
pub enum Number {
    /// A fixed count.
    Count(usize),
    /// One per alternate allele (`A`).
    AlternateBases,
    /// One per allele, the reference included (`R`).
    ReferenceAlternateBases,
    /// One per genotype (`G`).
    Samples,
    /// Unknown or varying (`.`).
    Unknown,
}

/// The type of the values of an INFO field.
#[derive(Clone, Copy, Debug, PartialEq, Eq, Structural)]
pub enum Type {
    Integer,
    Float,
    Flag,
    Character,
    String,
}

/// The definition of an INFO field.
#[derive(Clone, Debug, PartialEq, Eq)]
pub struct Info {
    pub number: Number,
    pub ty: Type,
    pub description: String,
    pub idx: Option<usize>,
}

/// The value of an INFO header line.
#[derive(Clone, Debug, PartialEq, Eq)]
pub struct InfoMap {
    pub inner: Info,
}

/// The text of decimal digit `d`.
pub open spec fn digit_text(d: nat) -> Seq<char> {
    if d == 0 {
        "0"@
    } else if d == 1 {
        "1"@
    } else if d == 2 {
        "2"@
    } else if d == 3 {
        "3"@
    } else if d == 4 {
        "4"@
    } else if d == 5 {
        "5"@
    } else if d == 6 {
        "6"@
    } else if d == 7 {
        "7"@
    } else if d == 8 {
        "8"@
    } else {
        "9"@
    }
}

/// The decimal text of `n`, without leading zeros.
pub open spec fn decimal(n: nat) -> Seq<char>
    decreases n,
{
    if n < 10 {
        digit_text(n)
    } else {
        decimal(n / 10) + digit_text(n % 10)
    }
}

/// The text of a number of values.
pub open spec fn number_text(number: Number) -> Seq<char> {
    match number {
        Number::Count(n) => decimal(n as nat),
        Number::AlternateBases => "A"@,
        Number::ReferenceAlternateBases => "R"@,
        Number::Samples => "G"@,
        Number::Unknown => "."@,
    }
}

/// The text of a type.
pub open spec fn type_text(ty: Type) -> Seq<char> {
    match ty {
        Type::Integer => "Integer"@,
        Type::Float => "Float"@,
        Type::Flag => "Flag"@,
        Type::Character => "Character"@,
        Type::String => "String"@,
    }
}

/// `c` inside a quoted string: quotes and backslashes take a backslash.
pub open spec fn escaped_char(c: char) -> Seq<char> {
    if c == '"' {
        "\\\""@
    } else if c == '\\' {
        "\\\\"@
    } else {
        seq![c]
    }
}

/// `s` inside a quoted string.
pub open spec fn escaped(s: Seq<char>) -> Seq<char>
    decreases s.len(),
{
    if s.len() == 0 {
        Seq::empty()
    } else {
        escaped(s.drop_last()) + escaped_char(s.last())
    }
}

/// The text of an INFO line's value after its ID: its number, type,
/// quoted description and, where present, its index.
pub open spec fn info_text(info: Info) -> Seq<char> {
    ",Number="@ + number_text(info.number) + ",Type="@ + type_text(info.ty) + ",Description=\""@
        + escaped(info.description@) + "\""@ + match info.idx {
        Some(i) => ",IDX="@ + decimal(i as nat),
        None => Seq::empty(),
    }
}

fn push_digit(s: &mut String, d: usize)
    requires
        d < 10,
    ensures
        final(s)@ == old(s)@ + digit_text(d as nat),
{
    if d == 0 {
        s.append("0");
    } else if d == 1 {
        s.append("1");
    } else if d == 2 {
        s.append("2");
    } else if d == 3 {
        s.append("3");
    } else if d == 4 {
        s.append("4");
    } else if d == 5 {
        s.append("5");
    } else if d == 6 {
        s.append("6");
    } else if d == 7 {
        s.append("7");
    } else if d == 8 {
        s.append("8");
    } else {
        s.append("9");
    }
}

/// Appends the decimal text of `n`.
fn push_decimal(s: &mut String, n: usize)
    ensures
        final(s)@ == old(s)@ + decimal(n as nat),
    decreases n,
{
    if n < 10 {
        push_digit(s, n);
    } else {
        push_decimal(s, n / 10);
        push_digit(s, n % 10);
        proof {
            assert(old(s)@ + decimal(n as nat) =~= old(s)@ + decimal((n / 10) as nat) + digit_text((n % 10) as nat));
        }
    }
}

/// Appends `text` with quotes and backslashes escaped.
fn push_escaped(s: &mut String, text: &str)
    ensures
        final(s)@ == old(s)@ + escaped(text@),
{
    let n = text.unicode_len();
    let mut i: usize = 0;
    proof {
        assert(text@.take(0) =~= Seq::<char>::empty());
    }
    while i < n
        invariant
            n == text@.len(),
            i <= n,
            s@ == old(s)@ + escaped(text@.take(i as int)),
        decreases n - i,
    {
        let c = text.get_char(i);
        let ghost before = s@;
        proof {
            assert(text@.take(i + 1).drop_last() =~= text@.take(i as int));
            assert(text@.take(i + 1).last() == c);
        }
        if c == '"' {
            s.append("\\\"");
        } else if c == '\\' {
            s.append("\\\\");
        } else {
            let one = text.substring_char(i, i + 1);
            proof {
                assert(one@ =~= seq![c]);
            }
            s.append(one);
        }
        proof {
            assert(s@ =~= before + escaped_char(c));
            assert(s@ =~= old(s)@ + escaped(text@.take(i + 1)));
        }
        i = i + 1;
    }
    proof {
        assert(text@.take(n as int) =~= text@);
    }
}

impl InfoMap {
    /// Creates an INFO value with no index.
    pub fn new(number: Number, ty: Type, description: &str) -> (r: InfoMap)
        ensures
            r.inner.number == number,
            r.inner.ty == ty,
            r.inner.description@ == description@,
            r.inner.idx is None,
    {
        InfoMap { inner: Info { number, ty, description: String::from_str(description), idx: None } }
    }

    /// How many values the field holds.
    pub fn number(&self) -> (r: Number)
        ensures
            r == self.inner.number,
    {
        self.inner.number
    }

    /// The type of the values.
    pub fn ty(&self) -> (r: Type)
        ensures
            r == self.inner.ty,
    {
        self.inner.ty
    }

    /// The description.
    pub fn description(&self) -> (r: &str)
        ensures
            r@ == self.inner.description@,
    {
        self.inner.description.as_str()
    }

    /// The index into the dictionary of strings, if any.
    pub fn idx(&self) -> (r: Option<usize>)
        ensures
            r == self.inner.idx,
    {
        self.inner.idx
    }

    /// Sets the index into the dictionary of strings.
    pub fn set_idx(&mut self, idx: Option<usize>)
        ensures
            final(self).inner.number == old(self).inner.number,
            final(self).inner.ty == old(self).inner.ty,
            final(self).inner.description@ == old(self).inner.description@,
            final(self).inner.idx == idx,
    {
        self.inner.idx = idx;
    }

    /// The text of the value after its ID.
    pub fn to_string(&self) -> (r: String)
        ensures
            r@ == info_text(self.inner),
    {
        let mut s = String::from_str(",Number=");
        match self.inner.number {
            Number::Count(n) => push_decimal(&mut s, n),
            Number::AlternateBases => s.append("A"),
            Number::ReferenceAlternateBases => s.append("R"),
            Number::Samples => s.append("G"),
            Number::Unknown => s.append("."),
        }
        s.append(",Type=");
        match self.inner.ty {
            Type::Integer => s.append("Integer"),
            Type::Float => s.append("Float"),
            Type::Flag => s.append("Flag"),
            Type::Character => s.append("Character"),
            Type::String => s.append("String"),
        }
        s.append(",Description=\"");
        push_escaped(&mut s, self.inner.description.as_str());
        s.append("\"");
        let ghost before = s@;
        match self.inner.idx {
            Some(i) => {
                s.append(",IDX=");
                push_decimal(&mut s, i);
            },
            None => {},
        }
        proof {
            assert(s@ =~= info_text(self.inner));
        }
        s
    }
}

} // verus!
