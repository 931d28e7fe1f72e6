//! Argument templates: a command line with placeholders that a queue fills
//! with the arguments of each task sent to it.
//!
//! A template is a sequence of pieces. `{}` stands for the next argument,
//! `{...}` for all arguments that the other placeholders leave over, and any
//! other word for itself.

use vstd::prelude::*;
use crate::shell::{quote, shell_quoted, shell_words, split};
use crate::text::{join, joined, push_decimal, same_text, strs, decimal};

verus! {

/// One piece of a template.
#[derive(Debug)]
pub enum Piece {
    /// A word that stands for itself.
    Static(String),
    /// `{}`: the next argument.
    Arg,
    /// `{...}`: the arguments left over.
    VarArg,
}

/// A piece, with its text as a sequence of characters.
pub enum PieceView {
    Static(Seq<char>),
    Arg,
    VarArg,
}

impl View for Piece {
    type V = PieceView;

    open spec fn view(&self) -> PieceView {
        match self {
            Piece::Static(s) => PieceView::Static(s@),
            Piece::Arg => PieceView::Arg,
            Piece::VarArg => PieceView::VarArg,
        }
    }
}

/// How many arguments a template takes.
#[derive(Debug)]
enum SizeInfo {
    Exactly { arg_count: usize },
    Minimum { before_var_arg_count: usize, after_var_arg_count: usize },
}

/// Why a template could not be read.
#[derive(Debug, PartialEq, Eq, Structural)]
pub enum ParseError {
    /// The text does not split into shell words.
    Split,
    /// `{...}` occurs more than once.
    MultipleVarArgs,
}

/// Why a template could not be filled: the number of arguments is wrong.
#[derive(Debug, PartialEq, Eq, Structural)]
pub enum ArityError {
    /// The template takes exactly `required` arguments.
    Exactly { required: usize },
    /// The template takes at least `required` arguments.
    AtLeast { required: usize },
}

/// The text of the placeholder for one argument.
pub open spec fn arg_text() -> Seq<char> {
    seq!['{', '}']
}

/// The text of the placeholder for the arguments left over.
pub open spec fn var_arg_text() -> Seq<char> {
    seq!['{', '.', '.', '.', '}']
}

/// The piece that a word of a template stands for.
pub open spec fn piece_of(word: Seq<char>) -> PieceView {
    if word == arg_text() {
        PieceView::Arg
    } else if word == var_arg_text() {
        PieceView::VarArg
    } else {
        PieceView::Static(word)
    }
}

/// The word that a piece is written as, before quoting.
pub open spec fn word_of(piece: PieceView) -> Seq<char> {
    match piece {
        PieceView::Static(s) => s,
        PieceView::Arg => arg_text(),
        PieceView::VarArg => var_arg_text(),
    }
}

/// The text that a piece is written as: a literal word is quoted for the shell.
pub open spec fn text_of(piece: PieceView) -> Seq<char> {
    match piece {
        PieceView::Static(s) => shell_quoted(s),
        PieceView::Arg => arg_text(),
        PieceView::VarArg => var_arg_text(),
    }
}

/// The pieces that a sequence of words stands for.
pub open spec fn pieces_of(words: Seq<Seq<char>>) -> Seq<PieceView> {
    Seq::new(words.len(), |i: int| piece_of(words[i]))
}

/// The words that a sequence of pieces is written as.
pub open spec fn words_of(pieces: Seq<PieceView>) -> Seq<Seq<char>> {
    Seq::new(pieces.len(), |i: int| word_of(pieces[i]))
}

/// The number of `{}` among `pieces`.
pub open spec fn count_args(pieces: Seq<PieceView>) -> nat
    decreases pieces.len(),
{
    if pieces.len() == 0 {
        0
    } else {
        count_args(pieces.drop_last()) + if pieces.last() is Arg { 1nat } else { 0nat }
    }
}

/// The number of `{...}` among `pieces`.
pub open spec fn count_var_args(pieces: Seq<PieceView>) -> nat
    decreases pieces.len(),
{
    if pieces.len() == 0 {
        0
    } else {
        count_var_args(pieces.drop_last()) + if pieces.last() is VarArg { 1nat } else { 0nat }
    }
}

/// The number of literal words among `pieces`.
pub open spec fn count_statics(pieces: Seq<PieceView>) -> nat
    decreases pieces.len(),
{
    if pieces.len() == 0 {
        0
    } else {
        count_statics(pieces.drop_last()) + if pieces.last() is Static { 1nat } else { 0nat }
    }
}

/// The number of arguments that `pieces` use up when `{...}` takes `var_len`.
pub open spec fn args_used(pieces: Seq<PieceView>, var_len: nat) -> nat {
    count_args(pieces) + var_len * count_var_args(pieces)
}

/// What the piece at `i` puts out: its word, the next unused argument, or the
/// next `var_len` unused arguments.
pub open spec fn output_of(
    pieces: Seq<PieceView>,
    i: int,
    args: Seq<Seq<char>>,
    var_len: nat,
) -> Seq<Seq<char>> {
    let at = args_used(pieces.take(i), var_len) as int;
    match pieces[i] {
        PieceView::Static(s) => seq![s],
        PieceView::Arg => seq![args[at]],
        PieceView::VarArg => args.subrange(at, at + var_len),
    }
}

/// The outputs of all pieces, one after the other.
pub open spec fn expand(pieces: Seq<PieceView>, args: Seq<Seq<char>>, var_len: nat) -> Seq<
    Seq<char>,
>
    decreases pieces.len(),
{
    if pieces.len() == 0 {
        Seq::empty()
    } else {
        expand(pieces.drop_last(), args, var_len) + output_of(
            pieces,
            pieces.len() - 1,
            args,
            var_len,
        )
    }
}

/// What filling `pieces` with `args` gives: without `{...}` the number of
/// arguments must be the number of `{}`; with it, at least that number, and
/// `{...}` takes the rest.
pub open spec fn instantiate_spec(pieces: Seq<PieceView>, args: Seq<Seq<char>>) -> Result<
    Seq<Seq<char>>,
    ArityError,
> {
    let required = count_args(pieces);
    if count_var_args(pieces) == 0 {
        if args.len() == required {
            Ok(expand(pieces, args, 0))
        } else {
            Err(ArityError::Exactly { required: required as usize })
        }
    } else {
        if args.len() >= required {
            Ok(expand(pieces, args, (args.len() - required) as nat))
        } else {
            Err(ArityError::AtLeast { required: required as usize })
        }
    }
}

/// What a sequence of words reads as: its pieces, unless `{...}` occurs twice.
pub open spec fn read_words(words: Seq<Seq<char>>) -> Result<Seq<PieceView>, ParseError> {
    if count_var_args(pieces_of(words)) > 1 {
        Err(ParseError::MultipleVarArgs)
    } else {
        Ok(pieces_of(words))
    }
}

/// What a text reads as: the pieces of its shell words.
pub open spec fn parse_spec(text: Seq<char>) -> Result<Seq<PieceView>, ParseError> {
    match shell_words(text) {
        None => Err(ParseError::Split),
        Some(words) => read_words(words),
    }
}

/// The text of a template: the texts of its pieces, single spaces between.
pub open spec fn to_string_spec(pieces: Seq<PieceView>) -> Seq<char> {
    joined(Seq::new(pieces.len(), |i: int| text_of(pieces[i])), seq![' '])
}

/// What holds of the pieces of every template: `{...}` occurs at most once, and
/// no literal word reads as a placeholder.
pub open spec fn well_formed(pieces: Seq<PieceView>) -> bool {
    &&& count_var_args(pieces) <= 1
    &&& forall|i: int|
        0 <= i < pieces.len() ==> piece_of(word_of(#[trigger] pieces[i])) == pieces[i]
}


/// Taking the first `i + 1` pieces adds the piece at `i` to each count.
pub proof fn lemma_counts_step(pieces: Seq<PieceView>, i: int)
    requires
        0 <= i < pieces.len(),
    ensures
        count_args(pieces.take(i + 1)) == count_args(pieces.take(i)) + if pieces[i] is Arg {
            1nat
        } else {
            0nat
        },
        count_var_args(pieces.take(i + 1)) == count_var_args(pieces.take(i)) + if pieces[i]
            is VarArg {
            1nat
        } else {
            0nat
        },
        count_statics(pieces.take(i + 1)) == count_statics(pieces.take(i)) + if pieces[i]
            is Static {
            1nat
        } else {
            0nat
        },
{
    assert(pieces.take(i + 1).drop_last() =~= pieces.take(i));
}

/// A part of a template holds no more placeholders than the whole.
pub proof fn lemma_counts_monotonic(pieces: Seq<PieceView>, i: int)
    requires
        0 <= i <= pieces.len(),
    ensures
        count_args(pieces.take(i)) <= count_args(pieces),
        count_var_args(pieces.take(i)) <= count_var_args(pieces),
        count_statics(pieces.take(i)) <= count_statics(pieces),
    decreases pieces.len() - i,
{
    if i == pieces.len() {
        assert(pieces.take(i) =~= pieces);
    } else {
        lemma_counts_step(pieces, i);
        lemma_counts_monotonic(pieces, i + 1);
    }
}

/// Every piece is a literal word, a `{}` or a `{...}`.
pub proof fn lemma_counts_total(pieces: Seq<PieceView>)
    ensures
        count_args(pieces) + count_var_args(pieces) + count_statics(pieces) == pieces.len(),
    decreases pieces.len(),
{
    if pieces.len() > 0 {
        lemma_counts_total(pieces.drop_last());
    }
}

/// The pieces before `i` put out the same whether or not more pieces follow.
pub proof fn lemma_expand_step(pieces: Seq<PieceView>, i: int, args: Seq<Seq<char>>, var_len: nat)
    requires
        0 <= i < pieces.len(),
    ensures
        expand(pieces.take(i + 1), args, var_len) == expand(pieces.take(i), args, var_len)
            + output_of(pieces, i, args, var_len),
{
    let head = pieces.take(i + 1);
    assert(head.drop_last() =~= pieces.take(i));
    assert(head.take(i) =~= pieces.take(i));
    assert(head[i] == pieces[i]);
}

/// The number of words that filling puts out: one for each literal word and one
/// for each argument used.
pub proof fn lemma_expand_len(pieces: Seq<PieceView>, args: Seq<Seq<char>>, var_len: nat)
    requires
        args_used(pieces, var_len) <= args.len(),
    ensures
        expand(pieces, args, var_len).len() == count_statics(pieces) + args_used(pieces, var_len),
    decreases pieces.len(),
{
    if pieces.len() > 0 {
        let init = pieces.drop_last();
        let last = pieces.len() - 1;
        assert(pieces.take(last) =~= init);
        let more = count_var_args(init);
        let at = args_used(init, var_len);
        assert(var_len * more >= 0) by (nonlinear_arith);
        if pieces.last() is VarArg {
            assert(var_len * (more + 1) == var_len * more + var_len) by (nonlinear_arith);
            assert(args_used(pieces, var_len) == at + var_len);
        } else if pieces.last() is Arg {
            assert(args_used(pieces, var_len) == at + 1);
        } else {
            assert(args_used(pieces, var_len) == at);
        }
        lemma_expand_len(init, args, var_len);
        let out = output_of(pieces, last, args, var_len);
        assert(out.len() == count_statics(pieces) - count_statics(init) + args_used(
            pieces,
            var_len,
        ) - at);
        assert(expand(pieces, args, var_len) == expand(init, args, var_len) + out);
    } else {
        assert(count_var_args(pieces) == 0);
        assert(var_len * 0 == 0);
    }
}


/// The pieces before `i` use up no more arguments than all pieces do, and the
/// piece at `i` uses up its own share after them.
pub proof fn lemma_args_used_step(pieces: Seq<PieceView>, i: int, var_len: nat)
    requires
        0 <= i < pieces.len(),
    ensures
        args_used(pieces.take(i + 1), var_len) == args_used(pieces.take(i), var_len) + (
        match pieces[i] {
            PieceView::Static(_) => 0nat,
            PieceView::Arg => 1nat,
            PieceView::VarArg => var_len,
        }),
        args_used(pieces.take(i + 1), var_len) <= args_used(pieces, var_len),
{
    lemma_counts_step(pieces, i);
    lemma_counts_monotonic(pieces, i + 1);
    let a = count_var_args(pieces.take(i));
    let b = count_var_args(pieces.take(i + 1));
    let c = count_var_args(pieces);
    assert(var_len * (a + 1) == var_len * a + var_len) by (nonlinear_arith);
    assert(var_len * b <= var_len * c) by (nonlinear_arith)
        requires
            b <= c,
    ;
}

/// A template: pieces, and the number of arguments that they take.
#[derive(Debug)]
pub struct Template {
    pieces: Vec<Piece>,
    size_info: SizeInfo,
}

impl View for Template {
    type V = Seq<PieceView>;

    closed spec fn view(&self) -> Seq<PieceView> {
        Seq::new(self.pieces@.len(), |i: int| self.pieces@[i]@)
    }
}

impl Template {
    #[verifier::type_invariant]
    spec fn inv(&self) -> bool {
        &&& well_formed(self@)
        &&& match self.size_info {
            SizeInfo::Exactly { arg_count } => {
                &&& count_var_args(self@) == 0
                &&& arg_count == count_args(self@)
            },
            SizeInfo::Minimum { before_var_arg_count, after_var_arg_count } => {
                &&& count_var_args(self@) == 1
                &&& before_var_arg_count + after_var_arg_count == count_args(self@)
            },
        }
    }

    /// Reads a template from its words: `{}` and `{...}` are placeholders,
    /// every other word stands for itself. Two `{...}` are refused.
    pub fn from_tokens(words: &Vec<String>) -> (r: Result<Template, ParseError>)
        ensures
            match read_words(strs(words@)) {
                Ok(pieces) => r is Ok && r->Ok_0@ == pieces && well_formed(pieces),
                Err(e) => r is Err && r->Err_0 == e,
            },
    {
        let ghost all = pieces_of(strs(words@));
        let mut pieces: Vec<Piece> = Vec::new();
        let mut has_var_arg = false;
        let mut before: usize = 0;
        let mut after: usize = 0;
        let mut i: usize = 0;
        proof {
            reveal_strlit("{}");
            reveal_strlit("{...}");
            assert("{}"@ =~= arg_text());
            assert("{...}"@ =~= var_arg_text());
        }
        while i < words.len()
            invariant
                i <= words@.len(),
                all == pieces_of(strs(words@)),
                "{}"@ == arg_text(),
                "{...}"@ == var_arg_text(),
                pieces@.len() == i,
                forall|j: int| 0 <= j < i ==> (#[trigger] pieces@[j])@ == all[j],
                count_var_args(all.take(i as int)) == if has_var_arg { 1nat } else { 0nat },
                before + after == count_args(all.take(i as int)),
                before + after <= i,
            decreases words@.len() - i,
        {
            proof {
                lemma_counts_step(all, i as int);
            }
            let word = &words[i];
            if same_text(word.as_str(), "{}") {
                if has_var_arg {
                    after += 1;
                } else {
                    before += 1;
                }
                pieces.push(Piece::Arg);
            } else if same_text(word.as_str(), "{...}") {
                if has_var_arg {
                    proof {
                        lemma_counts_monotonic(all, i + 1);
                    }
                    return Err(ParseError::MultipleVarArgs);
                }
                has_var_arg = true;
                pieces.push(Piece::VarArg);
            } else {
                pieces.push(Piece::Static(word.clone()));
            }
            i += 1;
        }
        let size_info = if has_var_arg {
            SizeInfo::Minimum { before_var_arg_count: before, after_var_arg_count: after }
        } else {
            SizeInfo::Exactly { arg_count: before + after }
        };
        proof {
            assert(all.take(words@.len() as int) =~= all);
            assert(Seq::new(pieces@.len(), |i: int| pieces@[i]@) =~= all);
            assert(arg_text().len() != var_arg_text().len());
        }
        Ok(Template { pieces, size_info })
    }

    /// Reads a template from a text: the text is split into shell words, and the
    /// words are read as `from_tokens` reads them.
    pub fn parse(text: &str) -> (r: Result<Template, ParseError>)
        ensures
            match parse_spec(text@) {
                Ok(pieces) => r is Ok && r->Ok_0@ == pieces && well_formed(pieces),
                Err(e) => r is Err && r->Err_0 == e,
            },
    {
        match split(text) {
            None => Err(ParseError::Split),
            Some(words) => Template::from_tokens(&words),
        }
    }

    /// The text of the template: `{}` and `{...}` as they are, each literal
    /// word quoted for the shell, single spaces between.
    pub fn to_string(&self) -> (text: String)
        ensures
            text@ == to_string_spec(self@),
    {
        let mut texts: Vec<String> = Vec::new();
        let mut i: usize = 0;
        proof {
            reveal_strlit("{}");
            reveal_strlit("{...}");
            reveal_strlit(" ");
            assert("{}"@ =~= arg_text());
            assert("{...}"@ =~= var_arg_text());
            assert(" "@ =~= seq![' ']);
        }
        while i < self.pieces.len()
            invariant
                i <= self.pieces@.len(),
                "{}"@ == arg_text(),
                "{...}"@ == var_arg_text(),
                texts@.len() == i,
                forall|j: int| 0 <= j < i ==> (#[trigger] texts@[j])@ == text_of(self.pieces@[j]@),
            decreases self.pieces@.len() - i,
        {
            let text = match &self.pieces[i] {
                Piece::Static(s) => quote(s.as_str()),
                Piece::Arg => "{}".to_owned(),
                Piece::VarArg => "{...}".to_owned(),
            };
            texts.push(text);
            i += 1;
        }
        assert(strs(texts@) =~= Seq::new(self@.len(), |i: int| text_of(self@[i])));
        join(&texts, " ")
    }

    /// Fills the template with `args`: each literal word stands for itself,
    /// each `{}` takes the next argument, and `{...}` takes those that the
    /// `{}` before and after it leave over.
    pub fn instantiate(&self, args: &[String]) -> (r: Result<Vec<String>, ArityError>)
        ensures
            match instantiate_spec(self@, strs(args@)) {
                Ok(out) => r is Ok && strs(r->Ok_0@) == out,
                Err(e) => r is Err && r->Err_0 == e,
            },
    {
        proof {
            use_type_invariant(self);
            lemma_counts_total(self@);
        }
        let args_len = args.len();
        let pieces_len = self.pieces.len();
        assert(count_args(self@) <= pieces_len);
        let var_arg_len = match self.size_info {
            SizeInfo::Exactly { arg_count } => {
                if args_len != arg_count {
                    return Err(ArityError::Exactly { required: arg_count });
                }
                0
            },
            SizeInfo::Minimum { before_var_arg_count, after_var_arg_count } => {
                let min_arg_count = before_var_arg_count + after_var_arg_count;
                if args_len < min_arg_count {
                    return Err(ArityError::AtLeast { required: min_arg_count });
                }
                args_len - min_arg_count
            },
        };
        let ghost pieces = self@;
        let ghost given = strs(args@);
        let ghost var_len = var_arg_len as nat;
        assert(args_used(pieces, var_len) == given.len()) by {
            assert(var_len * 0 == 0);
            assert(var_len * 1 == var_len);
        }
        let mut result: Vec<String> = Vec::new();
        let mut next: usize = 0;
        let mut i: usize = 0;
        assert(pieces.take(0).len() == 0);
        assert(var_len * 0 == 0);
        while i < self.pieces.len()
            invariant
                i <= self.pieces@.len(),
                pieces == self@,
                given == strs(args@),
                given.len() == args@.len() == args_len,
                var_len == var_arg_len,
                args_used(pieces, var_len) == given.len(),
                next == args_used(pieces.take(i as int), var_len),
                strs(result@) == expand(pieces.take(i as int), given, var_len),
            decreases self.pieces@.len() - i,
        {
            proof {
                lemma_args_used_step(pieces, i as int, var_len);
                lemma_expand_step(pieces, i as int, given, var_len);
            }
            let ghost so_far = strs(result@);
            assert(pieces[i as int] == self.pieces@[i as int]@);
            match &self.pieces[i] {
                Piece::Static(s) => {
                    result.push(s.clone());
                    assert(strs(result@) =~= so_far + seq![s@]);
                },
                Piece::Arg => {
                    result.push(args[next].clone());
                    assert(strs(result@) =~= so_far + seq![given[next as int]]);
                    next += 1;
                },
                Piece::VarArg => {
                    let end = next + var_arg_len;
                    let ghost from = next as int;
                    while next < end
                        invariant
                            0 <= from <= next <= end <= args@.len(),
                            given == strs(args@),
                            given.len() == args@.len(),
                            strs(result@) == so_far + given.subrange(from, next as int),
                        decreases end - next,
                    {
                        let ghost had = strs(result@);
                        result.push(args[next].clone());
                        assert(strs(result@) =~= had + seq![given[next as int]]);
                        assert(given.subrange(from, next + 1) =~= given.subrange(
                            from,
                            next as int,
                        ) + seq![given[next as int]]);
                        next += 1;
                    }
                },
            }
            i += 1;
        }
        assert(pieces.take(self.pieces@.len() as int) =~= pieces);
        Ok(result)
    }
}


/// Filling a template puts out one word for each of its literal words and one
/// for each argument given: with `{...}` for any number of arguments that
/// covers the `{}`, without it for exactly as many arguments as there are `{}`.
pub proof fn lemma_instantiate_len(pieces: Seq<PieceView>, args: Seq<Seq<char>>)
    requires
        count_var_args(pieces) <= 1,
        args.len() >= count_args(pieces),
        count_var_args(pieces) == 0 ==> args.len() == count_args(pieces),
    ensures
        instantiate_spec(pieces, args) is Ok,
        instantiate_spec(pieces, args)->Ok_0.len() == count_statics(pieces) + args.len(),
{
    let var_len = (args.len() - count_args(pieces)) as nat;
    assert(var_len * 0 == 0);
    assert(var_len * 1 == var_len);
    lemma_expand_len(pieces, args, var_len);
}

/// The words that a template is written as read back as the same template.
pub proof fn lemma_words_round_trip(pieces: Seq<PieceView>)
    requires
        well_formed(pieces),
    ensures
        read_words(words_of(pieces)) == Ok::<Seq<PieceView>, ParseError>(pieces),
{
    assert(pieces_of(words_of(pieces)) =~= pieces);
}

/// The text of a template reads back as the same template, wherever the shell
/// words of that text are the words that the template was written from: that
/// is, wherever splitting undoes the quoting of its literal words.
pub proof fn lemma_text_round_trip(pieces: Seq<PieceView>)
    requires
        well_formed(pieces),
        shell_words(to_string_spec(pieces)) == Some(words_of(pieces)),
    ensures
        parse_spec(to_string_spec(pieces)) == Ok::<Seq<PieceView>, ParseError>(pieces),
{
    lemma_words_round_trip(pieces);
}

impl ParseError {
    /// The error in words.
    pub fn message(&self) -> (text: String)
        ensures
            text@ == match self {
                ParseError::Split => "failed to split template into arguments"@,
                ParseError::MultipleVarArgs =>
                    "template cannot contain multiple variable argument expansions"@,
            },
    {
        match self {
            ParseError::Split => "failed to split template into arguments".to_owned(),
            ParseError::MultipleVarArgs =>
                "template cannot contain multiple variable argument expansions".to_owned(),
        }
    }
}

impl ArityError {
    /// The error in words, with the number of arguments that the template takes.
    pub open spec fn text(self) -> Seq<char> {
        match self {
            ArityError::Exactly { required } => "wrong number of arguments ("@ + decimal(
                required as nat,
            ) + " arguments required)"@,
            ArityError::AtLeast { required } => "wrong number of arguments (at least "@ + decimal(
                required as nat,
            ) + " arguments required)"@,
        }
    }

    /// The error in words, with the number of arguments that the template takes.
    pub fn message(&self) -> (text: String)
        ensures
            text@ == self.text(),
    {
        let (mut text, required) = match self {
            ArityError::Exactly { required } => ("wrong number of arguments (".to_owned(), *required),
            ArityError::AtLeast { required } => (
                "wrong number of arguments (at least ".to_owned(),
                *required,
            ),
        };
        push_decimal(&mut text, required as u64);
        text.append(" arguments required)");
        text
    }
}

impl std::str::FromStr for Template {
    type Err = ParseError;

    fn from_str(text: &str) -> (r: Result<Template, ParseError>)
        ensures
            match parse_spec(text@) {
                Ok(pieces) => r is Ok && r->Ok_0@ == pieces && well_formed(pieces),
                Err(e) => r is Err && r->Err_0 == e,
            },
    {
        Template::parse(text)
    }
}


impl Piece {
    /// Whether two pieces are the same.
    pub fn same(&self, other: &Piece) -> (r: bool)
        ensures
            r == (self@ == other@),
    {
        match (self, other) {
            (Piece::Static(a), Piece::Static(b)) => *a == *b,
            (Piece::Arg, Piece::Arg) => true,
            (Piece::VarArg, Piece::VarArg) => true,
            _ => false,
        }
    }
}

impl PartialEq for Template {
    fn eq(&self, other: &Template) -> (r: bool) {
        if self.pieces.len() != other.pieces.len() {
            assert(self@.len() != other@.len());
            return false;
        }
        let mut i: usize = 0;
        while i < self.pieces.len()
            invariant
                i <= self.pieces@.len(),
                self.pieces@.len() == other.pieces@.len(),
                forall|j: int| 0 <= j < i ==> self@[j] == other@[j],
            decreases self.pieces@.len() - i,
        {
            if !self.pieces[i].same(&other.pieces[i]) {
                assert(self@[i as int] != other@[i as int]);
                return false;
            }
            i += 1;
        }
        assert(self@ =~= other@);
        true
    }
}

impl Eq for Template {

}

impl vstd::std_specs::cmp::PartialEqSpecImpl for Template {
    open spec fn obeys_eq_spec() -> bool {
        true
    }

    open spec fn eq_spec(&self, other: &Template) -> bool {
        self@ == other@
    }
}

} // verus!
