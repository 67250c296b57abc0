//! Paths into documents (`$.a.b[0]`), as plan nodes and generators use them.

use vstd::prelude::*;
use crate::text::{push_char, push_str, push_decimal, chars_of, decimal, str_eq};

verus! {

/// One step of a document path.
#[derive(Debug)]
pub enum PathToken {
    /// The document root, `$`.
    Root,
    /// A named field, `.name` or `['name']`.
    Field(String),
    /// An array index, `[2]`.
    Index(usize),
    /// Any field, `.*`.
    Star,
    /// Any array item, `[*]`.
    StarIndex,
}

/// The model of a path step.
pub enum Step {
    Root,
    Field(Seq<char>),
    Index(nat),
    Star,
    StarIndex,
}

impl View for PathToken {
    type V = Step;

    open spec fn view(&self) -> Step {
        match *self {
            PathToken::Root => Step::Root,
            PathToken::Field(s) => Step::Field(s@),
            PathToken::Index(i) => Step::Index(i as nat),
            PathToken::Star => Step::Star,
            PathToken::StarIndex => Step::StarIndex,
        }
    }
}

/// A path into a document: a sequence of steps, normally starting at the root.
#[derive(Debug)]
pub struct DocPath {
    pub tokens: Vec<PathToken>,
}

impl View for DocPath {
    type V = Seq<Step>;

    open spec fn view(&self) -> Seq<Step> {
        self.tokens@.map_values(|t: PathToken| t@)
    }
}

/// Whether a field name can be written after a dot: a letter or `_`, then letters,
/// digits, `_` or `-`.
pub open spec fn plain_field(name: Seq<char>) -> bool {
    &&& name.len() > 0
    &&& is_ascii_letter(name[0]) || name[0] == '_'
    &&& forall|i: int| 1 <= i < name.len() ==> is_ascii_letter(#[trigger] name[i]) || is_ascii_digit(name[i]) || name[i] == '_' || name[i] == '-'
}

pub open spec fn is_ascii_letter(c: char) -> bool {
    ('a' <= c && c <= 'z') || ('A' <= c && c <= 'Z')
}

pub open spec fn is_ascii_digit(c: char) -> bool {
    '0' <= c && c <= '9'
}

/// A field name inside `['...']`, with `\` and `'` escaped by a backslash.
pub open spec fn quoted_field(name: Seq<char>) -> Seq<char>
    decreases name.len(),
{
    if name.len() == 0 {
        Seq::empty()
    } else {
        let c = name.last();
        let rest = quoted_field(name.drop_last());
        if c == '\\' || c == '\'' { rest.push('\\').push(c) } else { rest.push(c) }
    }
}

/// The text of one step.
pub open spec fn step_text(s: Step) -> Seq<char> {
    match s {
        Step::Root => seq!['$'],
        Step::Field(name) => if plain_field(name) {
            seq!['.'] + name
        } else {
            seq!['[', '\''] + quoted_field(name) + seq!['\'', ']']
        },
        Step::Index(i) => seq!['['] + decimal(i) + seq![']'],
        Step::Star => seq!['.', '*'],
        Step::StarIndex => seq!['[', '*', ']'],
    }
}

/// The text of a path: the texts of its steps, one after the other.
pub open spec fn path_text(p: Seq<Step>) -> Seq<char>
    decreases p.len(),
{
    if p.len() == 0 {
        Seq::empty()
    } else {
        path_text(p.drop_last()) + step_text(p.last())
    }
}

/// The name in the last field step of a path, if there is one.
pub open spec fn last_field_name(p: Seq<Step>) -> Option<Seq<char>>
    decreases p.len(),
{
    if p.len() == 0 {
        None
    } else {
        match p.last() {
            Step::Field(name) => Some(name),
            _ => last_field_name(p.drop_last()),
        }
    }
}

fn is_plain_field(name: &str) -> (r: bool)
    ensures
        r == plain_field(name@),
{
    let cs = chars_of(name);
    if cs.len() == 0 {
        return false;
    }
    let c0 = cs[0];
    if !(('a' <= c0 && c0 <= 'z') || ('A' <= c0 && c0 <= 'Z') || c0 == '_') {
        return false;
    }
    let mut i: usize = 1;
    while i < cs.len()
        invariant
            cs@ == name@,
            1 <= i <= cs.len(),
            forall|j: int| 1 <= j < i ==> is_ascii_letter(#[trigger] cs@[j]) || is_ascii_digit(cs@[j]) || cs@[j] == '_' || cs@[j] == '-',
        decreases cs.len() - i,
    {
        let c = cs[i];
        if !(('a' <= c && c <= 'z') || ('A' <= c && c <= 'Z') || ('0' <= c && c <= '9') || c == '_' || c == '-') {
            return false;
        }
        i = i + 1;
    }
    true
}

fn push_quoted(s: &mut String, name: &str)
    ensures
        final(s)@ == old(s)@ + quoted_field(name@),
{
    let cs = chars_of(name);
    let mut i: usize = 0;
    while i < cs.len()
        invariant
            cs@ == name@,
            i <= cs.len(),
            s@ == old(s)@ + quoted_field(cs@.subrange(0, i as int)),
        decreases cs.len() - i,
    {
        let c = cs[i];
        proof {
            assert(cs@.subrange(0, i + 1).drop_last() =~= cs@.subrange(0, i as int));
        }
        if c == '\\' || c == '\'' {
            push_char(s, '\\');
        }
        push_char(s, c);
        i = i + 1;
        assert(s@ =~= old(s)@ + quoted_field(cs@.subrange(0, i as int)));
    }
    assert(cs@.subrange(0, cs.len() as int) =~= cs@);
}

impl PathToken {
    /// A copy of this step.
    pub fn copy(&self) -> (r: PathToken)
        ensures
            r@ == self@,
    {
        match self {
            PathToken::Root => PathToken::Root,
            PathToken::Field(s) => PathToken::Field(s.clone()),
            PathToken::Index(i) => PathToken::Index(*i),
            PathToken::Star => PathToken::Star,
            PathToken::StarIndex => PathToken::StarIndex,
        }
    }

    /// Appends the text of this step.
    pub fn write_to(&self, s: &mut String)
        ensures
            final(s)@ == old(s)@ + step_text(self@),
    {
        match self {
            PathToken::Root => push_char(s, '$'),
            PathToken::Field(name) => {
                if is_plain_field(name.as_str()) {
                    push_char(s, '.');
                    push_str(s, name.as_str());
                } else {
                    push_char(s, '[');
                    push_char(s, '\'');
                    push_quoted(s, name.as_str());
                    push_char(s, '\'');
                    push_char(s, ']');
                }
            },
            PathToken::Index(i) => {
                push_char(s, '[');
                push_decimal(s, *i as u64);
                push_char(s, ']');
            },
            PathToken::Star => {
                push_char(s, '.');
                push_char(s, '*');
            },
            PathToken::StarIndex => {
                push_char(s, '[');
                push_char(s, '*');
                push_char(s, ']');
            },
        }
        assert(s@ =~= old(s)@ + step_text(self@));
    }
}

impl DocPath {
    /// The path to the document root, `$`.
    pub fn root() -> (r: DocPath)
        ensures
            r@ == seq![Step::Root],
    {
        let mut tokens = Vec::new();
        tokens.push(PathToken::Root);
        let r = DocPath { tokens };
        assert(r@ =~= seq![Step::Root]);
        r
    }

    /// The empty path.
    pub fn empty() -> (r: DocPath)
        ensures
            r@ == Seq::<Step>::empty(),
    {
        let r = DocPath { tokens: Vec::new() };
        assert(r@ =~= Seq::<Step>::empty());
        r
    }

    /// A copy of this path.
    pub fn copy(&self) -> (r: DocPath)
        ensures
            r@ == self@,
    {
        let mut tokens: Vec<PathToken> = Vec::new();
        let mut i: usize = 0;
        while i < self.tokens.len()
            invariant
                i <= self.tokens.len(),
                tokens.len() == i,
                forall|j: int| 0 <= j < i ==> #[trigger] tokens@[j]@ == self.tokens@[j]@,
            decreases self.tokens.len() - i,
        {
            let t = self.tokens[i].copy();
            tokens.push(t);
            i = i + 1;
        }
        let r = DocPath { tokens };
        assert(r@ =~= self@);
        r
    }

    /// The number of steps.
    pub fn len(&self) -> (r: usize)
        ensures
            r == self@.len(),
    {
        self.tokens.len()
    }

    /// Adds a field step.
    pub fn push_field(&mut self, name: &str)
        ensures
            final(self)@ == old(self)@.push(Step::Field(name@)),
    {
        self.tokens.push(PathToken::Field(name.to_string()));
        assert(self@ =~= old(self)@.push(Step::Field(name@)));
    }

    /// Adds an index step.
    pub fn push_index(&mut self, index: usize)
        ensures
            final(self)@ == old(self)@.push(Step::Index(index as nat)),
    {
        self.tokens.push(PathToken::Index(index));
        assert(self@ =~= old(self)@.push(Step::Index(index as nat)));
    }

    /// Adds a `[*]` step.
    pub fn push_star_index(&mut self)
        ensures
            final(self)@ == old(self)@.push(Step::StarIndex),
    {
        self.tokens.push(PathToken::StarIndex);
        assert(self@ =~= old(self)@.push(Step::StarIndex));
    }

    /// Adds a `.*` step.
    pub fn push_star(&mut self)
        ensures
            final(self)@ == old(self)@.push(Step::Star),
    {
        self.tokens.push(PathToken::Star);
        assert(self@ =~= old(self)@.push(Step::Star));
    }

    /// This path with a field step added.
    pub fn join(&self, name: &str) -> (r: DocPath)
        ensures
            r@ == self@.push(Step::Field(name@)),
    {
        let mut r = self.copy();
        r.push_field(name);
        r
    }

    /// This path with an index step added.
    pub fn join_index(&self, index: usize) -> (r: DocPath)
        ensures
            r@ == self@.push(Step::Index(index as nat)),
    {
        let mut r = self.copy();
        r.push_index(index);
        r
    }

    /// Appends the text of the path.
    pub fn write_to(&self, s: &mut String)
        ensures
            final(s)@ == old(s)@ + path_text(self@),
    {
        let mut i: usize = 0;
        while i < self.tokens.len()
            invariant
                i <= self.tokens.len(),
                s@ == old(s)@ + path_text(self@.subrange(0, i as int)),
            decreases self.tokens.len() - i,
        {
            proof {
                assert(self@.subrange(0, i + 1).drop_last() =~= self@.subrange(0, i as int));
            }
            self.tokens[i].write_to(s);
            i = i + 1;
            assert(s@ =~= old(s)@ + path_text(self@.subrange(0, i as int)));
        }
        assert(self@.subrange(0, self.tokens.len() as int) =~= self@);
    }

    /// The text of the path, such as `$.a[1]`.
    pub fn to_text(&self) -> (r: String)
        ensures
            r@ == path_text(self@),
    {
        let mut s = String::new();
        self.write_to(&mut s);
        assert(s@ =~= path_text(self@));
        s
    }

    /// The name in the last field step, if there is one.
    pub fn last_field(&self) -> (r: Option<String>)
        ensures
            match r {
                Some(n) => last_field_name(self@) == Some(n@),
                None => last_field_name(self@) is None,
            },
    {
        let mut i = self.tokens.len();
        assert(self@.subrange(0, i as int) =~= self@);
        while i > 0
            invariant
                i <= self.tokens.len(),
                last_field_name(self@) == last_field_name(self@.subrange(0, i as int)),
            decreases i,
        {
            proof {
                assert(self@.subrange(0, i as int).drop_last() =~= self@.subrange(0, i - 1));
            }
            match &self.tokens[i - 1] {
                PathToken::Field(name) => {
                    return Some(name.clone());
                },
                _ => {},
            }
            i = i - 1;
        }
        None
    }

    /// Whether two paths have the same steps.
    pub fn same_as(&self, other: &DocPath) -> (r: bool)
        ensures
            r == (self@ == other@),
    {
        if self.tokens.len() != other.tokens.len() {
            assert(self@.len() != other@.len());
            return false;
        }
        let mut i: usize = 0;
        while i < self.tokens.len()
            invariant
                self.tokens.len() == other.tokens.len(),
                i <= self.tokens.len(),
                forall|j: int| 0 <= j < i ==> self@[j] == other@[j],
            decreases self.tokens.len() - i,
        {
            let same = match (&self.tokens[i], &other.tokens[i]) {
                (PathToken::Root, PathToken::Root) => true,
                (PathToken::Field(a), PathToken::Field(b)) => str_eq(a.as_str(), b.as_str()),
                (PathToken::Index(a), PathToken::Index(b)) => *a == *b,
                (PathToken::Star, PathToken::Star) => true,
                (PathToken::StarIndex, PathToken::StarIndex) => true,
                _ => false,
            };
            if !same {
                assert(self@[i as int] != other@[i as int]);
                return false;
            }
            i = i + 1;
        }
        assert(self@ =~= other@);
        true
    }
}

} // verus!
