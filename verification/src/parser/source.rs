//! The tokens that are parsed.

use crate::parser::kind::SyntaxKind;
use vstd::prelude::*;

verus! {

/// A token, with its text.
#[derive(Debug, Clone, Copy)]
pub struct Lexeme<'t> {
    pub kind: SyntaxKind,
    pub lexeme: &'t str,
}

/// A token as contracts speak of it.
pub ghost struct LexemeView {
    pub kind: SyntaxKind,
    pub text: Seq<char>,
}

impl<'t> Lexeme<'t> {
    pub open spec fn view(&self) -> LexemeView {
        LexemeView { kind: self.kind, text: self.lexeme@ }
    }
}

/// The views of a row of tokens.
pub open spec fn lexeme_views(lexemes: Seq<Lexeme>) -> Seq<LexemeView> {
    lexemes.map_values(|l: Lexeme| l@)
}

/// The place of the first token from a place on that the grammar knows of, or the
/// end.
pub open spec fn skip_from(lexemes: Seq<LexemeView>, position: nat) -> nat
    decreases lexemes.len() - position,
{
    if position < lexemes.len() && lexemes[position as int].kind.skipped() {
        skip_from(lexemes, position + 1)
    } else {
        position
    }
}

/// The tokens that the grammar knows of.
pub open spec fn significant(lexemes: Seq<LexemeView>) -> Seq<LexemeView>
    decreases lexemes.len(),
{
    if lexemes.len() == 0 {
        Seq::empty()
    } else if lexemes.last().kind.skipped() {
        significant(lexemes.drop_last())
    } else {
        significant(lexemes.drop_last()).push(lexemes.last())
    }
}

/// Is this the place of the token in front of another place? Between the two there
/// are only tokens that the grammar knows nothing of.
pub open spec fn is_previous(lexemes: Seq<LexemeView>, previous: int, position: nat) -> bool {
    &&& 0 <= previous < position <= lexemes.len()
    &&& !lexemes[previous].kind.skipped()
    &&& forall|j: int| previous < j < position ==> (#[trigger] lexemes[j]).kind.skipped()
}

/// Is there a newline between the token in front of a place and that place?
pub open spec fn newline_before(lexemes: Seq<LexemeView>, position: nat) -> bool {
    exists|previous: int, i: int|
        #![trigger is_previous(lexemes, previous, position), lexemes[i]]
        is_previous(lexemes, previous, position) && previous < i < position
            && lexemes[i].text.contains('\n')
}

/// The text of tokens in a row.
pub open spec fn source_text(lexemes: Seq<LexemeView>) -> Seq<char>
    decreases lexemes.len(),
{
    if lexemes.len() == 0 {
        Seq::empty()
    } else {
        source_text(lexemes.drop_last()) + lexemes.last().text
    }
}

/// The tokens that are parsed, and the place of the current one.
#[derive(Debug, Clone, Copy)]
pub struct Source<'p> {
    pub lexemes: &'p Vec<Lexeme<'p>>,
    pub position: usize,
    /// The place to go back to.
    pub saved: usize,
}

/// A source as contracts speak of it.
pub ghost struct SourceView {
    pub lexemes: Seq<LexemeView>,
    pub position: nat,
    pub saved: nat,
}

impl SourceView {
    /// The current token, if there is one.
    pub open spec fn current(self) -> Option<LexemeView> {
        if self.position < self.lexemes.len() {
            Some(self.lexemes[self.position as int])
        } else {
            None
        }
    }

    /// The source at another place.
    pub open spec fn at(self, position: nat) -> SourceView {
        SourceView { position, ..self }
    }

    /// The source at the first token that the grammar knows of.
    pub open spec fn skip(self) -> SourceView {
        self.at(skip_from(self.lexemes, self.position))
    }

    /// Is the place one of the source's, or its end?
    pub open spec fn wf(self) -> bool {
        self.position <= self.lexemes.len()
    }
}

/// Is there a newline in a piece of text?
fn has_newline(text: &str) -> (r: bool)
    ensures
        r == text@.contains('\n'),
{
    let length: usize = text.unicode_len();
    let mut i: usize = 0;
    while i < length
        invariant
            i <= length,
            length == text@.len(),
            forall|j: int| 0 <= j < i ==> text@[j] != '\n',
        decreases length - i,
    {
        if text.get_char(i) == '\n' {
            assert(text@[i as int] == '\n');
            return true;
        }
        i = i + 1;
    }
    false
}

impl<'p> Source<'p> {
    pub open spec fn view(&self) -> SourceView {
        SourceView {
            lexemes: lexeme_views(self.lexemes@),
            position: self.position as nat,
            saved: self.saved as nat,
        }
    }

    /// A source at its first token.
    pub fn new(lexemes: &'p Vec<Lexeme<'p>>) -> (r: Source<'p>)
        ensures
            r@ == (SourceView { lexemes: lexeme_views(lexemes@), position: 0, saved: 0 }),
    {
        Source { lexemes, position: 0, saved: 0 }
    }

    /// Is there a current token?
    pub fn has_next(&self) -> (r: bool)
        ensures
            r == (self@.current() is Some),
    {
        self.position < self.lexemes.len()
    }

    /// The current token.
    pub fn get_current(&self) -> (r: Option<Lexeme<'p>>)
        ensures
            match r {
                Some(lexeme) => self@.current() == Some(lexeme@),
                None => self@.current() is None,
            },
    {
        if self.position < self.lexemes.len() {
            assert(self@.lexemes[self.position as int] == self.lexemes@[self.position as int]@);
            Some(self.lexemes[self.position])
        } else {
            None
        }
    }

    /// The place of the current token.
    pub fn position(&self) -> (r: usize)
        ensures
            r == self@.position,
    {
        self.position
    }

    /// Goes on to the next token.
    pub fn next(&mut self)
        requires
            old(self)@.current() is Some,
        ensures
            final(self)@ == old(self)@.at(old(self)@.position + 1),
    {
        assert(self.position < self.lexemes.len());
        self.position = self.position + 1;
    }

    /// Is there a newline between the previous token and the current place?
    pub fn newline_before(&self) -> (r: bool)
        requires
            self@.wf(),
        ensures
            r == newline_before(self@.lexemes, self@.position),
    {
        let ghost lexemes = self@.lexemes;
        let mut found = false;
        let mut i: usize = self.position;
        while i > 0
            invariant
                i <= self.position <= self.lexemes@.len(),
                lexemes == lexeme_views(self.lexemes@),
                forall|j: int| i <= j < self.position ==> (#[trigger] lexemes[j]).kind.skipped(),
                found == exists|j: int|
                    i <= j < self.position && (#[trigger] lexemes[j]).text.contains('\n'),
            decreases i,
        {
            i = i - 1;
            assert(lexemes[i as int] == self.lexemes@[i as int]@);
            if !self.lexemes[i].kind.should_skip() {
                assert(is_previous(lexemes, i as int, self@.position));
                assert forall|previous: int| is_previous(
                    lexemes,
                    previous,
                    self@.position,
                ) implies previous == i by {
                    if previous < i {
                        assert(lexemes[i as int].kind.skipped());
                    } else if previous > i {
                        assert(lexemes[previous].kind.skipped());
                    }
                }
                return found;
            }
            if has_newline(self.lexemes[i].lexeme) {
                found = true;
            }
        }
        assert forall|previous: int| !is_previous(lexemes, previous, self@.position) by {
            if 0 <= previous < self@.position {
                assert(lexemes[previous].kind.skipped());
            }
        }
        false
    }

    /// Marks the current place.
    pub fn save(&mut self)
        ensures
            final(self)@ == (SourceView { saved: old(self)@.position, ..old(self)@ }),
    {
        self.saved = self.position;
    }

    /// Goes back to the place that was marked last.
    pub fn restore(&mut self)
        ensures
            final(self)@ == old(self)@.at(old(self)@.saved),
    {
        self.position = self.saved;
    }
}

/// Skipping goes forward, within the source, to a token that the grammar knows of
/// or to the end.
pub proof fn lemma_skip_from(lexemes: Seq<LexemeView>, position: nat)
    requires
        position <= lexemes.len(),
    ensures
        position <= skip_from(lexemes, position) <= lexemes.len(),
        skip_from(lexemes, position) < lexemes.len() ==> !lexemes[skip_from(
            lexemes,
            position,
        ) as int].kind.skipped(),
        significant(lexemes.take(skip_from(lexemes, position) as int)) == significant(
            lexemes.take(position as int),
        ),
    decreases lexemes.len() - position,
{
    if position < lexemes.len() && lexemes[position as int].kind.skipped() {
        lemma_skip_from(lexemes, position + 1);
        lemma_significant_step(lexemes, position);
    }
}

/// The tokens that the grammar knows of, up to the next token.
pub proof fn lemma_significant_step(lexemes: Seq<LexemeView>, position: nat)
    requires
        position < lexemes.len(),
    ensures
        significant(lexemes.take(position as int + 1)) == (if lexemes[position as int].kind.skipped() {
            significant(lexemes.take(position as int))
        } else {
            significant(lexemes.take(position as int)).push(lexemes[position as int])
        }),
        source_text(lexemes.take(position as int + 1)) == source_text(lexemes.take(position as int))
            + lexemes[position as int].text,
{
    assert(lexemes.take(position as int + 1).drop_last() =~= lexemes.take(position as int));
}

} // verus!
