//! The parse state threaded through every step of a match.
use vstd::prelude::*;

verus! {

/// The texts held by a sequence of strings.
pub open spec fn texts(v: Seq<String>) -> Seq<Seq<char>> {
    v.map_values(|s: String| s@)
}

/// The value bound to an option.
#[derive(Debug, PartialEq, Eq)]
pub enum OptionValue {
    Pending,
    Bool(bool),
    String(String),
    Array(Vec<String>),
}

/// The value of an option, with texts as character sequences.
pub enum ValueModel {
    Pending,
    Bool(bool),
    Str(Seq<char>),
    Array(Seq<Seq<char>>),
}

impl View for OptionValue {
    type V = ValueModel;

    open spec fn view(&self) -> ValueModel {
        match self {
            OptionValue::Pending => ValueModel::Pending,
            OptionValue::Bool(b) => ValueModel::Bool(*b),
            OptionValue::String(s) => ValueModel::Str(s@),
            OptionValue::Array(v) => ValueModel::Array(texts(v@)),
        }
    }
}

/// A copy of a vector of strings.
fn copy_strings(v: &Vec<String>) -> (r: Vec<String>)
    ensures
        texts(r@) == texts(v@),
{
    let mut r: Vec<String> = Vec::new();
    let mut i: usize = 0;
    while i < v.len()
        invariant
            i <= v.len(),
            r.len() == i,
            forall|j: int| 0 <= j < i ==> r@[j]@ == v@[j]@,
        decreases v.len() - i,
    {
        r.push(v[i].clone());
        i = i + 1;
    }
    assert(texts(r@) =~= texts(v@));
    r
}

impl Clone for OptionValue {
    fn clone(&self) -> (r: Self)
        ensures
            r@ == self@,
    {
        match self {
            OptionValue::Pending => OptionValue::Pending,
            OptionValue::Bool(b) => OptionValue::Bool(*b),
            OptionValue::String(s) => OptionValue::String(s.clone()),
            OptionValue::Array(v) => OptionValue::Array(copy_strings(v)),
        }
    }
}


/// How a bare argument was classified when it was consumed.
#[derive(Debug, PartialEq, Eq)]
pub enum Positional {
    Required(String),
    Optional(String),
    Rest(String),
}

/// A positional, with its text as a character sequence.
pub enum PositionalModel {
    Required(Seq<char>),
    Optional(Seq<char>),
    Rest(Seq<char>),
}

impl View for Positional {
    type V = PositionalModel;

    open spec fn view(&self) -> PositionalModel {
        match self {
            Positional::Required(s) => PositionalModel::Required(s@),
            Positional::Optional(s) => PositionalModel::Optional(s@),
            Positional::Rest(s) => PositionalModel::Rest(s@),
        }
    }
}

impl Clone for Positional {
    fn clone(&self) -> (r: Self)
        ensures
            r@ == self@,
    {
        match self {
            Positional::Required(s) => Positional::Required(s.clone()),
            Positional::Optional(s) => Positional::Optional(s.clone()),
            Positional::Rest(s) => Positional::Rest(s.clone()),
        }
    }
}

/// Which characters of one argument were read, and as what.
/// `slice` is a range of character positions within the argument.
#[derive(Debug, PartialEq, Eq)]
pub enum Token {
    Option { segment_index: usize, slice: Option<(usize, usize)>, option: String },
    Assign { segment_index: usize, slice: (usize, usize) },
    Value { segment_index: usize, slice: Option<(usize, usize)> },
}

/// A token, with the option name as a character sequence.
pub enum TokenModel {
    Option { segment_index: usize, slice: Option<(usize, usize)>, option: Seq<char> },
    Assign { segment_index: usize, slice: (usize, usize) },
    Value { segment_index: usize, slice: Option<(usize, usize)> },
}

impl View for Token {
    type V = TokenModel;

    open spec fn view(&self) -> TokenModel {
        match self {
            Token::Option { segment_index, slice, option } => TokenModel::Option {
                segment_index: *segment_index,
                slice: *slice,
                option: option@,
            },
            Token::Assign { segment_index, slice } => TokenModel::Assign {
                segment_index: *segment_index,
                slice: *slice,
            },
            Token::Value { segment_index, slice } => TokenModel::Value {
                segment_index: *segment_index,
                slice: *slice,
            },
        }
    }
}

impl Clone for Token {
    fn clone(&self) -> (r: Self)
        ensures
            r@ == self@,
    {
        match self {
            Token::Option { segment_index, slice, option } => Token::Option {
                segment_index: *segment_index,
                slice: *slice,
                option: option.clone(),
            },
            Token::Assign { segment_index, slice } => Token::Assign {
                segment_index: *segment_index,
                slice: *slice,
            },
            Token::Value { segment_index, slice } => Token::Value {
                segment_index: *segment_index,
                slice: *slice,
            },
        }
    }
}

/// The view of a list of option bindings.
pub open spec fn bindings(v: Seq<(String, OptionValue)>) -> Seq<(Seq<char>, ValueModel)> {
    v.map_values(|p: (String, OptionValue)| (p.0@, p.1@))
}

/// The view of a list of positionals.
pub open spec fn positional_models(v: Seq<Positional>) -> Seq<PositionalModel> {
    v.map_values(|p: Positional| p@)
}

/// The view of a list of tokens.
pub open spec fn token_models(v: Seq<Token>) -> Seq<TokenModel> {
    v.map_values(|t: Token| t@)
}

/// The view of an optional string.
pub open spec fn opt_text(o: Option<String>) -> Option<Seq<char>> {
    match o {
        Some(s) => Some(s@),
        None => None,
    }
}

/// The working state of one candidate match.
#[derive(Debug, PartialEq, Eq)]
pub struct RunState {
    pub ignore_options: bool,
    pub options: Vec<(String, OptionValue)>,
    pub positionals: Vec<Positional>,
    pub tokens: Vec<Token>,
    pub path: Vec<String>,
    pub error_message: Option<String>,
    pub selected_index: Option<isize>,
}

/// The content of a `RunState`, with texts as character sequences.
pub struct StateModel {
    pub ignore_options: bool,
    pub options: Seq<(Seq<char>, ValueModel)>,
    pub positionals: Seq<PositionalModel>,
    pub tokens: Seq<TokenModel>,
    pub path: Seq<Seq<char>>,
    pub error_message: Option<Seq<char>>,
    pub selected_index: Option<isize>,
}

impl View for RunState {
    type V = StateModel;

    open spec fn view(&self) -> StateModel {
        StateModel {
            ignore_options: self.ignore_options,
            options: bindings(self.options@),
            positionals: positional_models(self.positionals@),
            tokens: token_models(self.tokens@),
            path: texts(self.path@),
            error_message: opt_text(self.error_message),
            selected_index: self.selected_index,
        }
    }
}

/// A copy of a list of option bindings.
fn copy_options(v: &Vec<(String, OptionValue)>) -> (r: Vec<(String, OptionValue)>)
    ensures
        bindings(r@) == bindings(v@),
{
    let mut r: Vec<(String, OptionValue)> = Vec::new();
    let mut i: usize = 0;
    while i < v.len()
        invariant
            i <= v.len(),
            r.len() == i,
            forall|j: int| 0 <= j < i ==> r@[j].0@ == v@[j].0@ && r@[j].1@ == v@[j].1@,
        decreases v.len() - i,
    {
        r.push((v[i].0.clone(), v[i].1.clone()));
        i = i + 1;
    }
    assert(bindings(r@) =~= bindings(v@));
    r
}

/// A copy of a list of positionals.
fn copy_positionals(v: &Vec<Positional>) -> (r: Vec<Positional>)
    ensures
        positional_models(r@) == positional_models(v@),
{
    let mut r: Vec<Positional> = Vec::new();
    let mut i: usize = 0;
    while i < v.len()
        invariant
            i <= v.len(),
            r.len() == i,
            forall|j: int| 0 <= j < i ==> r@[j]@ == v@[j]@,
        decreases v.len() - i,
    {
        r.push(v[i].clone());
        i = i + 1;
    }
    assert(positional_models(r@) =~= positional_models(v@));
    r
}

/// A copy of a list of tokens.
fn copy_tokens(v: &Vec<Token>) -> (r: Vec<Token>)
    ensures
        token_models(r@) == token_models(v@),
{
    let mut r: Vec<Token> = Vec::new();
    let mut i: usize = 0;
    while i < v.len()
        invariant
            i <= v.len(),
            r.len() == i,
            forall|j: int| 0 <= j < i ==> r@[j]@ == v@[j]@,
        decreases v.len() - i,
    {
        r.push(v[i].clone());
        i = i + 1;
    }
    assert(token_models(r@) =~= token_models(v@));
    r
}

fn copy_opt_text(o: &Option<String>) -> (r: Option<String>)
    ensures
        opt_text(r) == opt_text(*o),
{
    match o {
        Some(s) => Some(s.clone()),
        None => None,
    }
}

impl Clone for RunState {
    fn clone(&self) -> (r: Self)
        ensures
            r@ == self@,
    {
        RunState {
            ignore_options: self.ignore_options,
            options: copy_options(&self.options),
            positionals: copy_positionals(&self.positionals),
            tokens: copy_tokens(&self.tokens),
            path: copy_strings(&self.path),
            error_message: copy_opt_text(&self.error_message),
            selected_index: self.selected_index,
        }
    }
}


impl RunState {
    /// A fresh state: nothing read yet, options honoured.
    pub fn new() -> (r: RunState)
        ensures
            r@ == empty_state(),
    {
        let r = RunState {
            ignore_options: false,
            options: Vec::new(),
            positionals: Vec::new(),
            tokens: Vec::new(),
            path: Vec::new(),
            error_message: None,
            selected_index: None,
        };
        assert(r@.options =~= Seq::empty());
        assert(r@.positionals =~= Seq::empty());
        assert(r@.tokens =~= Seq::empty());
        assert(r@.path =~= Seq::empty());
        r
    }

    /// Overlays the fields that `partial` holds; the others stay as they were.
    pub fn apply_some(&mut self, partial: PartialRunState)
        ensures
            final(self)@ == overlay(old(self)@, partial@),
    {
        if let Some(v) = partial.ignore_options {
            self.ignore_options = v;
        }
        if let Some(v) = partial.options {
            self.options = v;
        }
        if let Some(v) = partial.positionals {
            self.positionals = v;
        }
        if let Some(v) = partial.tokens {
            self.tokens = v;
        }
        if let Some(v) = partial.path {
            self.path = v;
        }
        if let Some(v) = partial.error_message {
            self.error_message = v;
        }
        if let Some(v) = partial.selected_index {
            self.selected_index = v;
        }
    }
}

impl Default for RunState {
    fn default() -> (r: Self)
        ensures
            r@ == empty_state(),
    {
        RunState::new()
    }
}

impl Default for PartialRunState {
    fn default() -> (r: Self)
        ensures
            r@ == no_fields(),
    {
        PartialRunState::new()
    }
}

/// The content of a fresh state.
pub open spec fn empty_state() -> StateModel {
    StateModel {
        ignore_options: false,
        options: Seq::empty(),
        positionals: Seq::empty(),
        tokens: Seq::empty(),
        path: Seq::empty(),
        error_message: None,
        selected_index: None,
    }
}

/// A sparse state: each field that is present replaces the matching field of a `RunState`.
#[derive(Debug, PartialEq, Eq)]
pub struct PartialRunState {
    pub ignore_options: Option<bool>,
    pub options: Option<Vec<(String, OptionValue)>>,
    pub positionals: Option<Vec<Positional>>,
    pub tokens: Option<Vec<Token>>,
    pub path: Option<Vec<String>>,
    pub error_message: Option<Option<String>>,
    pub selected_index: Option<Option<isize>>,
}

/// The content of a `PartialRunState`.
pub struct PartialModel {
    pub ignore_options: Option<bool>,
    pub options: Option<Seq<(Seq<char>, ValueModel)>>,
    pub positionals: Option<Seq<PositionalModel>>,
    pub tokens: Option<Seq<TokenModel>>,
    pub path: Option<Seq<Seq<char>>>,
    pub error_message: Option<Option<Seq<char>>>,
    pub selected_index: Option<Option<isize>>,
}

impl View for PartialRunState {
    type V = PartialModel;

    open spec fn view(&self) -> PartialModel {
        PartialModel {
            ignore_options: self.ignore_options,
            options: match self.options {
                Some(v) => Some(bindings(v@)),
                None => None,
            },
            positionals: match self.positionals {
                Some(v) => Some(positional_models(v@)),
                None => None,
            },
            tokens: match self.tokens {
                Some(v) => Some(token_models(v@)),
                None => None,
            },
            path: match self.path {
                Some(v) => Some(texts(v@)),
                None => None,
            },
            error_message: match self.error_message {
                Some(e) => Some(opt_text(e)),
                None => None,
            },
            selected_index: self.selected_index,
        }
    }
}

/// Each field of `p` that is present, else the field of `s`.
pub open spec fn overlay(s: StateModel, p: PartialModel) -> StateModel {
    StateModel {
        ignore_options: match p.ignore_options {
            Some(v) => v,
            None => s.ignore_options,
        },
        options: match p.options {
            Some(v) => v,
            None => s.options,
        },
        positionals: match p.positionals {
            Some(v) => v,
            None => s.positionals,
        },
        tokens: match p.tokens {
            Some(v) => v,
            None => s.tokens,
        },
        path: match p.path {
            Some(v) => v,
            None => s.path,
        },
        error_message: match p.error_message {
            Some(v) => v,
            None => s.error_message,
        },
        selected_index: match p.selected_index {
            Some(v) => v,
            None => s.selected_index,
        },
    }
}

impl PartialRunState {
    /// A partial state that holds no field.
    pub fn new() -> (r: PartialRunState)
        ensures
            r@ == no_fields(),
    {
        PartialRunState {
            ignore_options: None,
            options: None,
            positionals: None,
            tokens: None,
            path: None,
            error_message: None,
            selected_index: None,
        }
    }
}

/// A partial state with no field present.
pub open spec fn no_fields() -> PartialModel {
    PartialModel {
        ignore_options: None,
        options: None,
        positionals: None,
        tokens: None,
        path: None,
        error_message: None,
        selected_index: None,
    }
}

impl Clone for PartialRunState {
    fn clone(&self) -> (r: Self)
        ensures
            r@ == self@,
    {
        PartialRunState {
            ignore_options: self.ignore_options,
            options: match &self.options {
                Some(v) => Some(copy_options(v)),
                None => None,
            },
            positionals: match &self.positionals {
                Some(v) => Some(copy_positionals(v)),
                None => None,
            },
            tokens: match &self.tokens {
                Some(v) => Some(copy_tokens(v)),
                None => None,
            },
            path: match &self.path {
                Some(v) => Some(copy_strings(v)),
                None => None,
            },
            error_message: match &self.error_message {
                Some(e) => Some(copy_opt_text(e)),
                None => None,
            },
            selected_index: self.selected_index,
        }
    }
}


pub proof fn lemma_texts_push(v: Seq<String>, x: String)
    ensures
        texts(v.push(x)) == texts(v).push(x@),
{
    assert(texts(v.push(x)) =~= texts(v).push(x@));
}

pub proof fn lemma_bindings_push(v: Seq<(String, OptionValue)>, x: (String, OptionValue))
    ensures
        bindings(v.push(x)) == bindings(v).push((x.0@, x.1@)),
{
    assert(bindings(v.push(x)) =~= bindings(v).push((x.0@, x.1@)));
}

pub proof fn lemma_bindings_last(v: Seq<(String, OptionValue)>)
    requires
        v.len() > 0,
    ensures
        bindings(v) == bindings(v.drop_last()).push((v.last().0@, v.last().1@)),
        bindings(v.drop_last()) == bindings(v).drop_last(),
{
    assert(v =~= v.drop_last().push(v.last()));
    lemma_bindings_push(v.drop_last(), v.last());
    assert(bindings(v.drop_last()) =~= bindings(v).drop_last());
}

pub proof fn lemma_positionals_push(v: Seq<Positional>, x: Positional)
    ensures
        positional_models(v.push(x)) == positional_models(v).push(x@),
{
    assert(positional_models(v.push(x)) =~= positional_models(v).push(x@));
}

pub proof fn lemma_tokens_push(v: Seq<Token>, x: Token)
    ensures
        token_models(v.push(x)) == token_models(v).push(x@),
{
    assert(token_models(v.push(x)) =~= token_models(v).push(x@));
}

} // verus!
