//! Environment variables, and text that refers to them.

use crate::text::{chars_of, concat, first_index, lemma_first_index, same_text, text_of_range};
use vstd::prelude::*;

verus! {

/// An environment variable.
#[derive(Debug, PartialEq, Eq)]
pub struct EnvVariable {
    pub name: String,
    pub value: String,
}

/// The environment variables of a process.
#[derive(Debug, PartialEq, Eq)]
pub struct Environment {
    pub variables: Vec<EnvVariable>,
}

/// What an [`EnvVariable`] holds.
#[verifier::ext_equal]
pub struct EnvVariableView {
    pub name: Seq<char>,
    pub value: Seq<char>,
}

impl DeepView for EnvVariable {
    type V = EnvVariableView;

    open spec fn deep_view(&self) -> EnvVariableView {
        EnvVariableView { name: self.name@, value: self.value@ }
    }
}

impl DeepView for Environment {
    type V = Seq<EnvVariableView>;

    open spec fn deep_view(&self) -> Seq<EnvVariableView> {
        self.variables.deep_view()
    }
}

/// The value of a variable: of two with the same name, the first counts.
pub open spec fn value_of(env: Seq<EnvVariableView>, name: Seq<char>) -> Option<Seq<char>>
    decreases env.len(),
{
    if env.len() == 0 {
        None
    } else if env[0].name == name {
        Some(env[0].value)
    } else {
        value_of(env.drop_first(), name)
    }
}

impl Environment {
    /// The value of the variable `name`.
    pub fn get(&self, name: &str) -> (res: Option<String>)
        ensures
            res.deep_view() == value_of(self.deep_view(), name@),
    {
        let ghost all = self.variables.deep_view();
        let mut i: usize = 0;
        assert(all.skip(0) =~= all);
        while i < self.variables.len()
            invariant
                i <= self.variables.len(),
                all == self.variables.deep_view(),
                value_of(all, name@) == value_of(all.skip(i as int), name@),
            decreases self.variables.len() - i,
        {
            proof {
                assert(all.skip(i as int)[0] == self.variables@[i as int].deep_view());
                assert(all.skip(i as int).drop_first() =~= all.skip(i + 1));
            }
            if same_text(&self.variables[i].name, name) {
                return Some(self.variables[i].value.clone());
            }
            i += 1;
        }
        None
    }
}

/// A letter, a digit or an underscore of ASCII.
pub open spec fn is_word_char(c: char) -> bool {
    ('a' <= c <= 'z') || ('A' <= c <= 'Z') || ('0' <= c <= '9') || c == '_'
}

fn word_char(c: char) -> (res: bool)
    ensures
        res == is_word_char(c),
{
    ('a' <= c && c <= 'z') || ('A' <= c && c <= 'Z') || ('0' <= c && c <= '9') || c == '_'
}

/// How many characters at the front of `s` are those of a word.
pub open spec fn word_length(s: Seq<char>) -> int
    decreases s.len(),
{
    if s.len() == 0 || !is_word_char(s[0]) {
        0
    } else {
        1 + word_length(s.drop_first())
    }
}

/// What can be wrong with a reference to a variable.
pub enum ReferenceError {
    /// It names none.
    Empty,
    /// The variable is not set.
    Missing(Seq<char>),
}

/// What begins with a dollar sign: a dollar sign, or the name of a variable; and how much of the
/// text that takes.
pub open spec fn reference_at(s: Seq<char>) -> (Option<Seq<char>>, int) {
    let rest = s.skip(1);
    if rest.len() > 0 && rest[0] == '$' {
        (None, 2)
    } else if rest.len() > 0 && rest[0] == '{' {
        let braced = rest.skip(1);
        let end = first_index(braced, '}');
        if end < braced.len() {
            (Some(braced.take(end)), end + 3)
        } else {
            (None, 1)
        }
    } else {
        let end = word_length(rest);
        if end > 0 {
            (Some(rest.take(end)), end + 1)
        } else {
            (None, 1)
        }
    }
}

proof fn lemma_word_length(s: Seq<char>)
    ensures
        0 <= word_length(s) <= s.len(),
    decreases s.len(),
{
    if s.len() > 0 && is_word_char(s[0]) {
        lemma_word_length(s.drop_first());
    }
}

/// A reference takes part of the text, and not more than there is.
pub proof fn lemma_reference_at(s: Seq<char>)
    requires
        s.len() > 0,
    ensures
        1 <= reference_at(s).1 <= s.len(),
{
    lemma_word_length(s.skip(1));
    lemma_first_index(s.skip(1).skip(1), '}');
}

/// `text` in front of what was to follow.
pub open spec fn before(text: Seq<char>, rest: Result<Seq<char>, ReferenceError>) -> Result<
    Seq<char>,
    ReferenceError,
> {
    match rest {
        Ok(rest) => Ok(text + rest),
        Err(error) => Err(error),
    }
}

/// `s` with the variables that it refers to, as `$NAME` or `${NAME}`, replaced by their values; two
/// dollar signs stand for one.
pub open spec fn interpolated(s: Seq<char>, env: Seq<EnvVariableView>) -> Result<
    Seq<char>,
    ReferenceError,
>
    decreases s.len(),
{
    if s.len() == 0 {
        Ok(Seq::empty())
    } else if s[0] != '$' {
        before(seq![s[0]], interpolated(s.skip(1), env))
    } else {
        proof {
            lemma_reference_at(s);
        }
        let (name, length) = reference_at(s);
        match name {
            None => before(seq!['$'], interpolated(s.skip(length), env)),
            Some(name) => if name.len() == 0 {
                Err(ReferenceError::Empty)
            } else {
                match value_of(env, name) {
                    None => Err(ReferenceError::Missing(name)),
                    Some(value) => before(value, interpolated(s.skip(length), env)),
                }
            },
        }
    }
}

/// `s` with each dollar sign doubled.
pub open spec fn doubled(s: Seq<char>) -> Seq<char>
    decreases s.len(),
{
    if s.len() == 0 {
        Seq::empty()
    } else if s[0] == '$' {
        seq!['$', '$'] + doubled(s.drop_first())
    } else {
        seq![s[0]] + doubled(s.drop_first())
    }
}

/// Any text can be written so that it comes out as it is: with its dollar signs doubled.
pub proof fn lemma_doubled_dollars_are_plain(s: Seq<char>, env: Seq<EnvVariableView>)
    ensures
        interpolated(doubled(s), env) == Ok::<Seq<char>, ReferenceError>(s),
    decreases s.len(),
{
    if s.len() == 0 {
        assert(s =~= Seq::<char>::empty());
    } else {
        let rest = s.drop_first();
        lemma_doubled_dollars_are_plain(rest, env);
        let text = doubled(s);
        if s[0] == '$' {
            assert(text.skip(1)[0] == '$');
            assert(text.skip(2) =~= doubled(rest));
            assert(seq!['$'] + rest =~= s);
        } else {
            assert(text.skip(1) =~= doubled(rest));
            assert(seq![s[0]] + rest =~= s);
        }
    }
}

/// A text without dollar signs comes out as it is.
pub proof fn lemma_plain_text_is_kept(s: Seq<char>, env: Seq<EnvVariableView>)
    requires
        forall|i: int| 0 <= i < s.len() ==> s[i] != '$',
    ensures
        interpolated(s, env) == Ok::<Seq<char>, ReferenceError>(s),
    decreases s.len(),
{
    if s.len() == 0 {
        assert(s =~= Seq::<char>::empty());
    } else {
        assert(s[0] != '$');
        lemma_plain_text_is_kept(s.skip(1), env);
        assert(seq![s[0]] + s.skip(1) =~= s);
    }
}

/// What came out of a reference.
enum Reference {
    Dollar,
    Name(String),
}

fn read_reference(chars: &Vec<char>, at: usize) -> (res: (Reference, usize))
    requires
        at < chars.len(),
    ensures
        ({
            let (name, length) = reference_at(chars@.skip(at as int));
            &&& res.1 == length
            &&& match (res.0, name) {
                (Reference::Dollar, None) => true,
                (Reference::Name(text), Some(name)) => text@ == name,
                _ => false,
            }
        }),
        1 <= res.1 <= chars.len() - at,
{
    let ghost s = chars@.skip(at as int);
    let ghost rest = s.skip(1);
    proof {
        lemma_reference_at(s);
        assert(rest =~= chars@.skip(at + 1));
    }
    let from: usize = at + 1;
    if from < chars.len() && chars[from] == '$' {
        return (Reference::Dollar, 2);
    }
    if from < chars.len() && chars[from] == '{' {
        let ghost braced = rest.skip(1);
        let mut end: usize = from + 1;
        assert(braced =~= chars@.skip(from + 1));
        assert(braced.skip(0) =~= braced);
        while end < chars.len() && chars[end] != '}'
            invariant
                at + 2 == from + 1 <= end <= chars.len(),
                braced == chars@.skip(from + 1),
                forall|i: int| 0 <= i < end - from - 1 ==> braced[i] != '}',
            decreases chars.len() - end,
        {
            assert(braced[end - from - 1] == chars@[end as int]);
            end += 1;
        }
        proof {
            lemma_first_index(braced, '}');
            let found = first_index(braced, '}');
            if end < chars.len() {
                assert(braced[end - from - 1] == '}');
                if found < end - from - 1 {
                    assert(braced[found] == '}');
                }
                assert(found == end - from - 1);
                assert(braced.take(found) =~= chars@.subrange(from + 1, end as int));
            } else if found < braced.len() {
                assert(braced[found] == '}');
            }
        }
        if end < chars.len() {
            let name = text_of_range(chars, from + 1, end);
            return (Reference::Name(name), end + 1 - at);
        }
        return (Reference::Dollar, 1);
    }
    let mut end: usize = from;
    assert(rest.skip(0) =~= rest);
    while end < chars.len() && word_char(chars[end])
        invariant
            from <= end <= chars.len(),
            rest == chars@.skip(from as int),
            word_length(rest) == end - from + word_length(rest.skip(end - from)),
        decreases chars.len() - end,
    {
        let ghost left = rest.skip(end - from);
        assert(left[0] == chars@[end as int]);
        assert(left.drop_first() =~= rest.skip(end + 1 - from));
        end += 1;
    }
    proof {
        let left = rest.skip(end - from);
        if end < chars.len() {
            assert(left[0] == chars@[end as int]);
        }
        assert(word_length(left) == 0);
        assert(rest.take(end - from) =~= chars@.subrange(from as int, end as int));
    }
    if end == from {
        return (Reference::Dollar, 1);
    }
    let name = text_of_range(chars, from, end);
    (Reference::Name(name), end - at)
}

/// What can be wrong with a reference, in exec code.
#[derive(Debug, PartialEq, Eq)]
pub enum InterpolationError {
    Empty,
    Missing(String),
}

/// `value` with the variables that it refers to replaced by their values.
pub fn interpolate(value: &str, env: &Environment) -> (res: Result<String, InterpolationError>)
    ensures
        match (res, interpolated(value@, env.deep_view())) {
            (Ok(text), Ok(expected)) => text@ == expected,
            (Err(InterpolationError::Empty), Err(ReferenceError::Empty)) => true,
            (Err(InterpolationError::Missing(name)), Err(ReferenceError::Missing(expected))) =>
                name@ == expected,
            _ => false,
        },
{
    let ghost variables = env.deep_view();
    let chars = chars_of(value);
    let mut output = String::new();
    let mut at: usize = 0;
    proof {
        assert(value@.skip(0) =~= value@);
        if let Ok(rest) = interpolated(value@, variables) {
            assert(output@ + rest =~= rest);
        }
    }
    while at < chars.len()
        invariant
            at <= chars.len(),
            chars@ == value@,
            variables == env.deep_view(),
            interpolated(value@, variables) == before(
                output@,
                interpolated(value@.skip(at as int), variables),
            ),
        decreases chars.len() - at,
    {
        let ghost s = value@.skip(at as int);
        let ghost done = output@;
        if chars[at] != '$' {
            output.push(chars[at]);
            proof {
                assert(s[0] == chars@[at as int]);
                assert(s.skip(1) =~= value@.skip(at + 1));
                if let Ok(rest) = interpolated(value@.skip(at + 1), variables) {
                    assert(done + (seq![s[0]] + rest) =~= output@ + rest);
                }
            }
            at += 1;
        } else {
            let (reference, length) = read_reference(&chars, at);
            proof {
                assert(s[0] == '$');
                assert(s.skip(length as int) =~= value@.skip(at + length));
            }
            match reference {
                Reference::Dollar => {
                    output.push('$');
                    proof {
                        if let Ok(rest) = interpolated(value@.skip(at + length), variables) {
                            assert(done + (seq!['$'] + rest) =~= output@ + rest);
                        }
                    }
                },
                Reference::Name(name) => {
                    if name.as_str().is_empty() {
                        return Err(InterpolationError::Empty);
                    }
                    match env.get(&name) {
                        None => {
                            return Err(InterpolationError::Missing(name));
                        },
                        Some(replacement) => {
                            output = concat(&output, &replacement);
                            proof {
                                if let Ok(rest) = interpolated(
                                    value@.skip(at + length),
                                    variables,
                                ) {
                                    assert(done + (replacement@ + rest) =~= output@ + rest);
                                }
                            }
                        },
                    }
                },
            }
            at += length;
        }
    }
    proof {
        assert(value@.skip(at as int) =~= Seq::<char>::empty());
        assert(output@ + Seq::<char>::empty() =~= output@);
    }
    Ok(output)
}

} // verus!
