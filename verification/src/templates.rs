//! Plain templates: a command line in which each `{}` stands for one value.

use vstd::prelude::*;
use vstd::std_specs::convert::FromSpecImpl;
use crate::text::{same_text, strs};

verus! {

/// The word that stands for a value.
pub const TEMPLATE_PLACEHOLDER: &'static str = "{}";

/// One word of a plain template.
#[derive(Debug)]
pub enum Piece {
    /// A word that stands for itself.
    Arg(String),
    /// `{}`: the next value.
    Placeholder,
}

/// A word of a plain template, with its text as a sequence of characters.
pub enum PieceView {
    Arg(Seq<char>),
    Placeholder,
}

impl View for Piece {
    type V = PieceView;

    open spec fn view(&self) -> PieceView {
        match self {
            Piece::Arg(s) => PieceView::Arg(s@),
            Piece::Placeholder => PieceView::Placeholder,
        }
    }
}

/// A plain template: its words in order.
#[derive(Debug)]
pub struct Template(pub Vec<Piece>);

impl View for Template {
    type V = Seq<PieceView>;

    open spec fn view(&self) -> Seq<PieceView> {
        Seq::new(self.0@.len(), |i: int| self.0@[i]@)
    }
}

/// Why a plain template could not be filled.
#[derive(Debug, PartialEq, Eq, Structural)]
pub enum TemplateError {
    /// There are not as many values as placeholders.
    ArgumentCountMismatch,
}

/// The word of a plain template that `word` is read as.
pub open spec fn piece_of(word: Seq<char>) -> PieceView {
    if word == TEMPLATE_PLACEHOLDER@ {
        PieceView::Placeholder
    } else {
        PieceView::Arg(word)
    }
}

/// The number of placeholders among `pieces`.
pub open spec fn count_placeholders(pieces: Seq<PieceView>) -> nat
    decreases pieces.len(),
{
    if pieces.len() == 0 {
        0
    } else {
        count_placeholders(pieces.drop_last()) + if pieces.last() is Placeholder {
            1nat
        } else {
            0nat
        }
    }
}

/// `pieces` with the placeholders filled from `values` in order: the
/// placeholder at `i` takes the value whose number is the number of
/// placeholders before `i`.
pub open spec fn filled(pieces: Seq<PieceView>, values: Seq<Seq<char>>) -> Seq<Seq<char>> {
    Seq::new(
        pieces.len(),
        |i: int|
            match pieces[i] {
                PieceView::Arg(s) => s,
                PieceView::Placeholder => values[count_placeholders(pieces.take(i)) as int],
            },
    )
}

/// What filling gives: the filled words where there are as many values as
/// placeholders, and an error where there are not.
pub open spec fn fill_spec(pieces: Seq<PieceView>, values: Seq<Seq<char>>) -> Result<
    Seq<Seq<char>>,
    TemplateError,
> {
    if count_placeholders(pieces) == values.len() {
        Ok(filled(pieces, values))
    } else {
        Err(TemplateError::ArgumentCountMismatch)
    }
}

/// Taking one more word adds it to the count if it is a placeholder, and the
/// count of a part never exceeds that of the whole.
pub proof fn lemma_count_placeholders(pieces: Seq<PieceView>, i: int)
    requires
        0 <= i < pieces.len(),
    ensures
        count_placeholders(pieces.take(i + 1)) == count_placeholders(pieces.take(i)) + if pieces[i]
            is Placeholder {
            1nat
        } else {
            0nat
        },
        count_placeholders(pieces.take(i + 1)) <= count_placeholders(pieces),
    decreases pieces.len() - i,
{
    assert(pieces.take(i + 1).drop_last() =~= pieces.take(i));
    if i + 1 == pieces.len() {
        assert(pieces.take(i + 1) =~= pieces);
    } else {
        lemma_count_placeholders(pieces, i + 1);
    }
}

impl Template {
    /// Reads a plain template from its words: `{}` is a placeholder, every
    /// other word stands for itself.
    pub fn from_words(words: &[String]) -> (template: Template)
        ensures
            template@ == Seq::new(words@.len(), |i: int| piece_of(words@[i]@)),
    {
        let mut pieces: Vec<Piece> = Vec::new();
        let mut i: usize = 0;
        while i < words.len()
            invariant
                i <= words@.len(),
                pieces@.len() == i,
                forall|j: int| 0 <= j < i ==> (#[trigger] pieces@[j])@ == piece_of(words@[j]@),
            decreases words@.len() - i,
        {
            let word = &words[i];
            if same_text(word.as_str(), TEMPLATE_PLACEHOLDER) {
                pieces.push(Piece::Placeholder);
            } else {
                pieces.push(Piece::Arg(word.clone()));
            }
            i += 1;
        }
        let template = Template(pieces);
        assert(template@ =~= Seq::new(words@.len(), |i: int| piece_of(words@[i]@)));
        template
    }

    /// The number of placeholders.
    pub fn placeholders(&self) -> (n: usize)
        ensures
            n == count_placeholders(self@),
    {
        let mut n: usize = 0;
        let mut i: usize = 0;
        assert(self@.take(0).len() == 0);
        while i < self.0.len()
            invariant
                i <= self.0@.len(),
                n == count_placeholders(self@.take(i as int)),
                n <= i,
            decreases self.0@.len() - i,
        {
            proof {
                lemma_count_placeholders(self@, i as int);
            }
            match &self.0[i] {
                Piece::Placeholder => {
                    n += 1;
                },
                Piece::Arg(_) => {},
            }
            i += 1;
        }
        assert(self@.take(self.0@.len() as int) =~= self@);
        n
    }

    /// Fills the placeholders with `v` in order; the other words stand for
    /// themselves. There must be as many values as placeholders.
    pub fn fill(&self, v: &[String]) -> (r: Result<Vec<String>, TemplateError>)
        ensures
            match fill_spec(self@, strs(v@)) {
                Ok(out) => r is Ok && strs(r->Ok_0@) == out,
                Err(e) => r is Err && r->Err_0 == e,
            },
    {
        if self.placeholders() != v.len() {
            return Err(TemplateError::ArgumentCountMismatch);
        }
        let ghost values = strs(v@);
        let mut res: Vec<String> = Vec::new();
        let mut next: usize = 0;
        let mut i: usize = 0;
        assert(self@.take(0).len() == 0);
        while i < self.0.len()
            invariant
                i <= self.0@.len(),
                values == strs(v@),
                count_placeholders(self@) == v@.len(),
                next == count_placeholders(self@.take(i as int)),
                res@.len() == i,
                forall|j: int| 0 <= j < i ==> (#[trigger] res@[j])@ == filled(self@, values)[j],
            decreases self.0@.len() - i,
        {
            proof {
                lemma_count_placeholders(self@, i as int);
            }
            match &self.0[i] {
                Piece::Placeholder => {
                    res.push(v[next].clone());
                    next += 1;
                },
                Piece::Arg(s) => {
                    res.push(s.clone());
                },
            }
            i += 1;
        }
        assert(strs(res@) =~= filled(self@, values));
        Ok(res)
    }
}

impl<'a> From<&'a [String]> for Template {
    fn from(v: &'a [String]) -> (template: Template)
        ensures
            template@ == Seq::new(v@.len(), |i: int| piece_of(v@[i]@)),
    {
        Template::from_words(v)
    }
}

impl<'a> FromSpecImpl<&'a [String]> for Template {
    open spec fn obeys_from_spec() -> bool {
        false
    }

    open spec fn from_spec(v: &'a [String]) -> Template {
        arbitrary()
    }
}

} // verus!
