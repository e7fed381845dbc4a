//! Parser for the textual system-definition language: metadata assignments
//! (`name = "..."`, `rows = 2`) and folder declarations
//! (`folder "name" (append) "button" ... ;`), each folder reading the
//! metadata in force at its point. Tokenizing and parsing are specified as
//! recursive functions over the character and token sequences, and the
//! executable parser returns exactly what those functions describe.

use vstd::prelude::*;
use vstd::string::StrSliceExecFns;

use crate::text::str_eq;

verus! {

/// Why a system definition was rejected.
#[derive(Clone, Copy, Debug, PartialEq, Eq, Structural)]
pub enum ParseError {
    /// An opening quote with no closing quote after it.
    UnclosedString,
    /// A token sequence that fits neither an assignment nor a folder.
    UnexpectedToken,
    /// A folder mode other than `append` or `immediate`.
    InvalidMode,
    /// A required metadata key (`name`, `description`, `default`, `rows`,
    /// `cols`) that no assignment supplied.
    MissingKey,
    /// A `rows` or `cols` value that is not an unsigned decimal number in
    /// range.
    BadNumber,
}

/// A lexical token of the definition language.
#[derive(Clone, Debug, PartialEq)]
pub enum Tok {
    Equals,
    Open,
    Close,
    Semi,
    Quoted { text: String },
    Word { text: String },
}

/// The mathematical value of a token.
pub enum TokSpec {
    Equals,
    Open,
    Close,
    Semi,
    Quoted { text: Seq<char> },
    Word { text: Seq<char> },
}

impl View for Tok {
    type V = TokSpec;

    open spec fn view(&self) -> TokSpec {
        match self {
            Tok::Equals => TokSpec::Equals,
            Tok::Open => TokSpec::Open,
            Tok::Close => TokSpec::Close,
            Tok::Semi => TokSpec::Semi,
            Tok::Quoted { text } => TokSpec::Quoted { text: text@ },
            Tok::Word { text } => TokSpec::Word { text: text@ },
        }
    }
}

/// The token values of a token sequence.
pub open spec fn toks_view(toks: Seq<Tok>) -> Seq<TokSpec> {
    toks.map_values(|t: Tok| t@)
}

/// Whitespace between tokens.
pub open spec fn is_space(c: char) -> bool {
    c == ' ' || c == '\n' || c == '\t' || c == '\r'
}

/// The single-character punctuation tokens.
pub open spec fn is_punct(c: char) -> bool {
    c == '=' || c == '(' || c == ')' || c == ';'
}

/// A character that may stand in a bare word.
pub open spec fn is_word_char(c: char) -> bool {
    !is_space(c) && !is_punct(c) && c != '"'
}

/// First position at or after `i` that cannot continue a bare word (the
/// length when the word runs to the end).
pub open spec fn word_end(s: Seq<char>, i: int) -> int
    decreases s.len() - i when 0 <= i <= s.len()
{
    if i >= s.len() {
        i
    } else if is_word_char(s[i]) {
        word_end(s, i + 1)
    } else {
        i
    }
}

/// First position at or after `i` holding a double quote (the length when
/// none occurs).
pub open spec fn quote_end(s: Seq<char>, i: int) -> int
    decreases s.len() - i when 0 <= i <= s.len()
{
    if i >= s.len() {
        i
    } else if s[i] == '"' {
        i
    } else {
        quote_end(s, i + 1)
    }
}

/// `word_end` stays between its start and the length.
pub proof fn lemma_word_end_bounds(s: Seq<char>, i: int)
    requires
        0 <= i <= s.len(),
    ensures
        i <= word_end(s, i) <= s.len(),
    decreases s.len() - i,
{
    if i < s.len() && is_word_char(s[i]) {
        lemma_word_end_bounds(s, i + 1);
    }
}

/// `quote_end` stays between its start and the length.
pub proof fn lemma_quote_end_bounds(s: Seq<char>, i: int)
    requires
        0 <= i <= s.len(),
    ensures
        i <= quote_end(s, i) <= s.len(),
    decreases s.len() - i,
{
    if i < s.len() && s[i] != '"' {
        lemma_quote_end_bounds(s, i + 1);
    }
}

/// The tokens of `s` from position `i` on: whitespace is skipped, `=`, `(`,
/// `)` and `;` stand alone, a double quote opens a quoted string that must be
/// closed, and any other character starts a bare word.
pub open spec fn spec_tokenize_at(s: Seq<char>, i: int) -> Result<Seq<TokSpec>, ParseError>
    decreases s.len() - i when 0 <= i <= s.len() via spec_tokenize_at_decreases
{
    if i >= s.len() {
        Ok(Seq::empty())
    } else if is_space(s[i]) {
        spec_tokenize_at(s, i + 1)
    } else if s[i] == '=' {
        tok_cons(TokSpec::Equals, spec_tokenize_at(s, i + 1))
    } else if s[i] == '(' {
        tok_cons(TokSpec::Open, spec_tokenize_at(s, i + 1))
    } else if s[i] == ')' {
        tok_cons(TokSpec::Close, spec_tokenize_at(s, i + 1))
    } else if s[i] == ';' {
        tok_cons(TokSpec::Semi, spec_tokenize_at(s, i + 1))
    } else if s[i] == '"' {
        let j = quote_end(s, i + 1);
        if j >= s.len() {
            Err(ParseError::UnclosedString)
        } else {
            tok_cons(
                TokSpec::Quoted { text: s.subrange(i + 1, j) },
                spec_tokenize_at(s, j + 1),
            )
        }
    } else {
        let j = word_end(s, i);
        tok_cons(TokSpec::Word { text: s.subrange(i, j) }, spec_tokenize_at(s, j))
    }
}

/// Prepends a token to a tokenizing result, keeping any error.
pub open spec fn tok_cons(t: TokSpec, rest: Result<Seq<TokSpec>, ParseError>) -> Result<
    Seq<TokSpec>,
    ParseError,
> {
    match rest {
        Ok(ts) => Ok(seq![t] + ts),
        Err(e) => Err(e),
    }
}

#[via_fn]
proof fn spec_tokenize_at_decreases(s: Seq<char>, i: int) {
    if 0 <= i && i < s.len() {
        lemma_quote_end_bounds(s, i + 1);
        lemma_word_end_bounds(s, i);
        if is_word_char(s[i]) {
            lemma_word_end_bounds(s, i + 1);
        }
    }
}

/// The tokens of the whole of `s`.
pub open spec fn spec_tokenize(s: Seq<char>) -> Result<Seq<TokSpec>, ParseError> {
    spec_tokenize_at(s, 0)
}

/// A decimal digit.
pub open spec fn is_digit(c: char) -> bool {
    48 <= c as int <= 57
}

/// All characters are digits, and there is at least one.
pub open spec fn all_digits(s: Seq<char>) -> bool {
    s.len() > 0 && forall|i: int| 0 <= i < s.len() ==> is_digit(#[trigger] s[i])
}

/// The value of a digit string, most significant digit first.
pub open spec fn digits_val(s: Seq<char>) -> int
    decreases s.len(),
{
    if s.len() == 0 {
        0
    } else {
        digits_val(s.drop_last()) * 10 + (s.last() as int - 48)
    }
}

/// The number a value string denotes: all digits and within `usize` range,
/// or nothing.
pub open spec fn spec_parse_usize(s: Seq<char>) -> Option<int> {
    if all_digits(s) && digits_val(s) <= usize::MAX {
        Some(digits_val(s))
    } else {
        None
    }
}

/// One parsed folder declaration. `default` records whether the folder's
/// name equals the `default` metadata value in force at its declaration.
#[derive(Clone, Debug, PartialEq)]
pub struct Folder {
    pub name: String,
    pub default: bool,
    pub immediate: bool,
    pub rows: usize,
    pub cols: usize,
    pub buttons: Vec<String>,
}

/// A parsed system definition: the required metadata and the declared
/// folders, in order.
#[derive(Clone, Debug, PartialEq)]
pub struct System {
    pub name: String,
    pub description: String,
    pub default: String,
    pub rows: usize,
    pub cols: usize,
    pub folders: Vec<Folder>,
}

/// The mathematical value of a parsed folder.
pub struct FolderSpec {
    pub name: Seq<char>,
    pub default: bool,
    pub immediate: bool,
    pub rows: int,
    pub cols: int,
    pub buttons: Seq<Seq<char>>,
}

/// The mathematical value of a parsed system definition.
pub struct SystemSpec {
    pub name: Seq<char>,
    pub description: Seq<char>,
    pub default: Seq<char>,
    pub rows: int,
    pub cols: int,
    pub folders: Seq<FolderSpec>,
}

impl View for Folder {
    type V = FolderSpec;

    open spec fn view(&self) -> FolderSpec {
        FolderSpec {
            name: self.name@,
            default: self.default,
            immediate: self.immediate,
            rows: self.rows as int,
            cols: self.cols as int,
            buttons: self.buttons.deep_view(),
        }
    }
}

impl View for System {
    type V = SystemSpec;

    open spec fn view(&self) -> SystemSpec {
        SystemSpec {
            name: self.name@,
            description: self.description@,
            default: self.default@,
            rows: self.rows as int,
            cols: self.cols as int,
            folders: self.folders@.map_values(|f: Folder| f@),
        }
    }
}

/// The folder values of a folder sequence.
pub open spec fn folders_view(fs: Seq<Folder>) -> Seq<FolderSpec> {
    fs.map_values(|f: Folder| f@)
}

/// The key/value views of a metadata list.
pub open spec fn meta_view(m: Seq<(String, String)>) -> Seq<(Seq<char>, Seq<char>)> {
    m.map_values(|p: (String, String)| (p.0@, p.1@))
}

/// First-match metadata lookup from position `p` on.
pub open spec fn meta_get_at(m: Seq<(Seq<char>, Seq<char>)>, k: Seq<char>, p: int) -> Option<
    Seq<char>,
>
    decreases m.len() - p when 0 <= p <= m.len()
{
    if p >= m.len() {
        None
    } else if m[p].0 == k {
        Some(m[p].1)
    } else {
        meta_get_at(m, k, p + 1)
    }
}

/// The metadata value in force for `k`: the most recently put binding.
pub open spec fn meta_get(m: Seq<(Seq<char>, Seq<char>)>, k: Seq<char>) -> Option<Seq<char>> {
    meta_get_at(m, k, 0)
}

/// Puts a binding: the new pair shadows any earlier binding of the same key.
pub open spec fn meta_put(m: Seq<(Seq<char>, Seq<char>)>, k: Seq<char>, v: Seq<char>) -> Seq<
    (Seq<char>, Seq<char>),
> {
    seq![(k, v)] + m
}

/// First position at or after `p` whose token is not a quoted string (the
/// length when the run goes to the end).
pub open spec fn quoted_run_end(toks: Seq<TokSpec>, p: int) -> int
    decreases toks.len() - p when 0 <= p <= toks.len()
{
    if p >= toks.len() {
        p
    } else if toks[p] is Quoted {
        quoted_run_end(toks, p + 1)
    } else {
        p
    }
}

/// `quoted_run_end` stays between its start and the length.
pub proof fn lemma_quoted_run_bounds(toks: Seq<TokSpec>, p: int)
    requires
        0 <= p <= toks.len(),
    ensures
        p <= quoted_run_end(toks, p) <= toks.len(),
    decreases toks.len() - p,
{
    if p < toks.len() && toks[p] is Quoted {
        lemma_quoted_run_bounds(toks, p + 1);
    }
}

/// The texts of the quoted tokens from `a` (inclusive) to `b` (exclusive).
pub open spec fn quoted_texts(toks: Seq<TokSpec>, a: int, b: int) -> Seq<Seq<char>> {
    Seq::new((b - a) as nat, |k: int| toks[a + k]->Quoted_text)
}

/// The folder a declaration denotes, given the metadata in force: its
/// `default` flag compares the folder name against the `default` value, and
/// `rows` and `cols` are read from the metadata. Missing metadata or an
/// unusable number rejects the declaration.
pub open spec fn spec_make_folder(
    meta: Seq<(Seq<char>, Seq<char>)>,
    name: Seq<char>,
    immediate: bool,
    buttons: Seq<Seq<char>>,
) -> Result<FolderSpec, ParseError> {
    match meta_get(meta, "default"@) {
        None => Err(ParseError::MissingKey),
        Some(default_name) => match meta_get(meta, "rows"@) {
            None => Err(ParseError::MissingKey),
            Some(rows_text) => match spec_parse_usize(rows_text) {
                None => Err(ParseError::BadNumber),
                Some(rows) => match meta_get(meta, "cols"@) {
                    None => Err(ParseError::MissingKey),
                    Some(cols_text) => match spec_parse_usize(cols_text) {
                        None => Err(ParseError::BadNumber),
                        Some(cols) => Ok(
                            FolderSpec {
                                name,
                                default: default_name == name,
                                immediate,
                                rows,
                                cols,
                                buttons,
                            },
                        ),
                    },
                },
            },
        },
    }
}

/// The system the metadata and folders denote once all tokens are consumed:
/// `name`, `description` and `default` must be present, and `rows` and `cols`
/// must be present and numeric.
pub open spec fn spec_finalize(
    meta: Seq<(Seq<char>, Seq<char>)>,
    folders: Seq<FolderSpec>,
) -> Result<SystemSpec, ParseError> {
    match meta_get(meta, "name"@) {
        None => Err(ParseError::MissingKey),
        Some(name) => match meta_get(meta, "description"@) {
            None => Err(ParseError::MissingKey),
            Some(description) => match meta_get(meta, "default"@) {
                None => Err(ParseError::MissingKey),
                Some(default) => match meta_get(meta, "rows"@) {
                    None => Err(ParseError::MissingKey),
                    Some(rows_text) => match spec_parse_usize(rows_text) {
                        None => Err(ParseError::BadNumber),
                        Some(rows) => match meta_get(meta, "cols"@) {
                            None => Err(ParseError::MissingKey),
                            Some(cols_text) => match spec_parse_usize(cols_text) {
                                None => Err(ParseError::BadNumber),
                                Some(cols) => Ok(
                                    SystemSpec { name, description, default, rows, cols, folders },
                                ),
                            },
                        },
                    },
                },
            },
        },
    }
}

/// Parses the items from token position `p` on, with the metadata bindings
/// and folders gathered so far. An item is either an assignment
/// `word = value` (the value a quoted string or a bare word) or a folder
/// declaration `folder "name" ( mode ) "button" ... ;`.
pub open spec fn spec_parse_at(
    toks: Seq<TokSpec>,
    p: int,
    meta: Seq<(Seq<char>, Seq<char>)>,
    folders: Seq<FolderSpec>,
) -> Result<SystemSpec, ParseError>
    decreases toks.len() - p when 0 <= p <= toks.len() via spec_parse_at_decreases
{
    if p >= toks.len() {
        spec_finalize(meta, folders)
    } else {
        match toks[p] {
            TokSpec::Word { text: w } => {
                if w == "folder"@ {
                    let shape_ok = p + 4 < toks.len() && toks[p + 1] is Quoted && toks[p + 2] is Open
                        && toks[p + 3] is Word && toks[p + 4] is Close;
                    if !shape_ok {
                        Err(ParseError::UnexpectedToken)
                    } else {
                        let name = toks[p + 1]->Quoted_text;
                        let mode = toks[p + 3]->Word_text;
                        let q = quoted_run_end(toks, p + 5);
                        if !(q < toks.len() && toks[q] is Semi) {
                            Err(ParseError::UnexpectedToken)
                        } else if !(mode == "append"@ || mode == "immediate"@) {
                            Err(ParseError::InvalidMode)
                        } else {
                            match spec_make_folder(
                                meta,
                                name,
                                mode == "immediate"@,
                                quoted_texts(toks, p + 5, q),
                            ) {
                                Err(e) => Err(e),
                                Ok(f) => spec_parse_at(toks, q + 1, meta, folders.push(f)),
                            }
                        }
                    }
                } else {
                    if !(p + 2 < toks.len() && toks[p + 1] is Equals && (toks[p + 2] is Quoted
                        || toks[p + 2] is Word)) {
                        Err(ParseError::UnexpectedToken)
                    } else {
                        let v = if toks[p + 2] is Quoted {
                            toks[p + 2]->Quoted_text
                        } else {
                            toks[p + 2]->Word_text
                        };
                        spec_parse_at(toks, p + 3, meta_put(meta, w, v), folders)
                    }
                }
            },
            _ => Err(ParseError::UnexpectedToken),
        }
    }
}

#[via_fn]
proof fn spec_parse_at_decreases(
    toks: Seq<TokSpec>,
    p: int,
    meta: Seq<(Seq<char>, Seq<char>)>,
    folders: Seq<FolderSpec>,
) {
    if 0 <= p && p + 5 <= toks.len() {
        lemma_quoted_run_bounds(toks, p + 5);
    }
}

/// What parsing a whole definition text yields: its tokens parsed from the
/// start with no metadata and no folders.
pub open spec fn spec_parse(s: Seq<char>) -> Result<SystemSpec, ParseError> {
    match spec_tokenize(s) {
        Ok(toks) => spec_parse_at(toks, 0, Seq::empty(), Seq::empty()),
        Err(e) => Err(e),
    }
}

/// The token values of a tokenizing outcome.
pub open spec fn lift_toks(r: Result<Vec<Tok>, ParseError>) -> Result<Seq<TokSpec>, ParseError> {
    match r {
        Ok(ts) => Ok(toks_view(ts@)),
        Err(e) => Err(e),
    }
}

/// The mathematical value of a parsing outcome.
pub open spec fn lift_sys(r: Result<System, ParseError>) -> Result<SystemSpec, ParseError> {
    match r {
        Ok(sys) => Ok(sys@),
        Err(e) => Err(e),
    }
}

fn is_space_c(c: char) -> (r: bool)
    ensures
        r == is_space(c),
{
    c == ' ' || c == '\n' || c == '\t' || c == '\r'
}

fn is_word_char_c(c: char) -> (r: bool)
    ensures
        r == is_word_char(c),
{
    !is_space_c(c) && c != '=' && c != '(' && c != ')' && c != ';' && c != '"'
}

/// Scans to the end of the bare word starting at `i`.
fn word_scan(s: &str, i: usize) -> (r: usize)
    requires
        i <= s@.len(),
    ensures
        r as int == word_end(s@, i as int),
        i <= r <= s@.len(),
    decreases s@.len() - i,
{
    if i == s.unicode_len() {
        i
    } else if is_word_char_c(s.get_char(i)) {
        word_scan(s, i + 1)
    } else {
        i
    }
}

/// Scans to the next double quote at or after `i`.
fn quote_scan(s: &str, i: usize) -> (r: usize)
    requires
        i <= s@.len(),
    ensures
        r as int == quote_end(s@, i as int),
        i <= r <= s@.len(),
    decreases s@.len() - i,
{
    if i == s.unicode_len() {
        i
    } else if s.get_char(i) == '"' {
        i
    } else {
        quote_scan(s, i + 1)
    }
}

/// Every digit string has a value at least that of each of its prefixes.
proof fn lemma_digits_prefix_bound(s: Seq<char>, i: int)
    requires
        0 <= i <= s.len(),
        forall|k: int| 0 <= k < s.len() ==> is_digit(#[trigger] s[k]),
    ensures
        digits_val(s.take(i)) <= digits_val(s),
        digits_val(s.take(i)) >= 0,
    decreases s.len() - i,
{
    lemma_digits_nonneg(s.take(i));
    if i < s.len() {
        assert(s.take(i + 1).drop_last() =~= s.take(i));
        assert(s.take(i + 1).last() == s[i]);
        lemma_digits_prefix_bound(s, i + 1);
    } else {
        assert(s.take(i) =~= s);
    }
}

/// A digit string's value is never negative.
proof fn lemma_digits_nonneg(s: Seq<char>)
    requires
        forall|k: int| 0 <= k < s.len() ==> is_digit(#[trigger] s[k]),
    ensures
        digits_val(s) >= 0,
    decreases s.len(),
{
    if s.len() > 0 {
        lemma_digits_nonneg(s.drop_last());
    }
}

/// Reads an unsigned decimal number, exactly when the whole string is made
/// of digits and the value fits the machine.
pub fn parse_usize(s: &str) -> (r: Option<usize>)
    ensures
        match r {
            Some(v) => spec_parse_usize(s@) == Some(v as int),
            None => spec_parse_usize(s@) is None,
        },
{
    let n = s.unicode_len();
    if n == 0 {
        return None;
    }
    // First pass: every character must be a digit.
    let mut i: usize = 0;
    while i < n
        invariant
            n == s@.len(),
            i <= n,
            forall|k: int| 0 <= k < i ==> is_digit(#[trigger] s@[k]),
        decreases n - i,
    {
        let u = s.get_char(i) as u32;
        if u < 48 || u > 57 {
            return None;
        }
        i += 1;
    }
    // Second pass: accumulate, watching the machine bound.
    let mut acc: usize = 0;
    let mut j: usize = 0;
    proof {
        assert(s@.take(0) =~= Seq::<char>::empty());
    }
    while j < n
        invariant
            n == s@.len(),
            j <= n,
            forall|k: int| 0 <= k < n ==> is_digit(#[trigger] s@[k]),
            acc as int == digits_val(s@.take(j as int)),
        decreases n - j,
    {
        let u = s.get_char(j) as u32;
        let d = (u - 48) as usize;
        proof {
            assert(s@.take(j + 1).drop_last() =~= s@.take(j as int));
            assert(s@.take(j + 1).last() == s@[j as int]);
        }
        let next = match acc.checked_mul(10) {
            Some(t) => match t.checked_add(d) {
                Some(v) => v,
                None => {
                    proof {
                        lemma_digits_prefix_bound(s@, j + 1);
                    }
                    return None;
                },
            },
            None => {
                proof {
                    lemma_digits_prefix_bound(s@, j as int);
                    lemma_digits_prefix_bound(s@, j + 1);
                }
                return None;
            },
        };
        acc = next;
        j += 1;
    }
    proof {
        assert(s@.take(n as int) =~= s@);
    }
    Some(acc)
}

/// Prepends a token to a tokenizing outcome, keeping any error.
fn cons_tok(t: Tok, rest: Result<Vec<Tok>, ParseError>) -> (r: Result<Vec<Tok>, ParseError>)
    ensures
        lift_toks(r) == tok_cons(t@, lift_toks(rest)),
{
    let ghost tv = t@;
    match rest {
        Ok(mut ts) => {
            let ghost prev = ts@;
            ts.insert(0, t);
            proof {
                assert(toks_view(ts@) =~= seq![tv] + toks_view(prev));
            }
            Ok(ts)
        },
        Err(e) => Err(e),
    }
}

/// Tokenizes `s` from position `i` on.
fn tokenize_from(s: &str, i: usize) -> (r: Result<Vec<Tok>, ParseError>)
    requires
        i <= s@.len(),
    ensures
        lift_toks(r) == spec_tokenize_at(s@, i as int),
    decreases s@.len() - i,
{
    let n = s.unicode_len();
    if i == n {
        let empty: Vec<Tok> = Vec::new();
        proof {
            assert(toks_view(empty@) =~= Seq::<TokSpec>::empty());
        }
        return Ok(empty);
    }
    let c = s.get_char(i);
    if is_space_c(c) {
        tokenize_from(s, i + 1)
    } else if c == '=' {
        cons_tok(Tok::Equals, tokenize_from(s, i + 1))
    } else if c == '(' {
        cons_tok(Tok::Open, tokenize_from(s, i + 1))
    } else if c == ')' {
        cons_tok(Tok::Close, tokenize_from(s, i + 1))
    } else if c == ';' {
        cons_tok(Tok::Semi, tokenize_from(s, i + 1))
    } else if c == '"' {
        let j = quote_scan(s, i + 1);
        if j == n {
            Err(ParseError::UnclosedString)
        } else {
            let text = s.substring_char(i + 1, j).to_owned();
            cons_tok(Tok::Quoted { text }, tokenize_from(s, j + 1))
        }
    } else {
        let j = word_scan(s, i);
        proof {
            lemma_word_end_bounds(s@, i + 1);
        }
        let text = s.substring_char(i, j).to_owned();
        cons_tok(Tok::Word { text }, tokenize_from(s, j))
    }
}

/// Splits a definition text into tokens.
pub fn tokenize(s: &str) -> (r: Result<Vec<Tok>, ParseError>)
    ensures
        lift_toks(r) == spec_tokenize(s@),
{
    tokenize_from(s, 0)
}

/// Finds the metadata binding in force for `k`, from position `p` on.
fn meta_find_at<'a>(m: &'a Vec<(String, String)>, k: &str, p: usize) -> (r: Option<&'a String>)
    requires
        p <= m@.len(),
    ensures
        match r {
            Some(v) => meta_get_at(meta_view(m@), k@, p as int) == Some(v@),
            None => meta_get_at(meta_view(m@), k@, p as int) is None,
        },
    decreases m@.len() - p,
{
    if p == m.len() {
        None
    } else {
        proof {
            assert(meta_view(m@)[p as int] == (m@[p as int].0@, m@[p as int].1@));
        }
        if str_eq(m[p].0.as_str(), k) {
            Some(&m[p].1)
        } else {
            meta_find_at(m, k, p + 1)
        }
    }
}

/// Finds the metadata binding in force for `k`.
fn meta_find<'a>(m: &'a Vec<(String, String)>, k: &str) -> (r: Option<&'a String>)
    ensures
        match r {
            Some(v) => meta_get(meta_view(m@), k@) == Some(v@),
            None => meta_get(meta_view(m@), k@) is None,
        },
{
    meta_find_at(m, k, 0)
}

/// Every token of a quoted run is a quoted string.
proof fn lemma_quoted_run_quoted(toks: Seq<TokSpec>, p: int)
    requires
        0 <= p <= toks.len(),
    ensures
        forall|k: int| p <= k < quoted_run_end(toks, p) ==> (#[trigger] toks[k]) is Quoted,
    decreases toks.len() - p,
{
    if p < toks.len() && toks[p] is Quoted {
        lemma_quoted_run_quoted(toks, p + 1);
    }
}

/// Scans to the end of the quoted-string run starting at `p`.
fn quoted_run_scan(toks: &Vec<Tok>, p: usize) -> (r: usize)
    requires
        p <= toks@.len(),
    ensures
        r as int == quoted_run_end(toks_view(toks@), p as int),
        p <= r <= toks@.len(),
    decreases toks@.len() - p,
{
    proof {
        assert(toks_view(toks@).len() == toks@.len());
    }
    if p == toks.len() {
        p
    } else {
        proof {
            assert(toks_view(toks@)[p as int] == toks@[p as int]@);
        }
        match &toks[p] {
            Tok::Quoted { text: _ } => quoted_run_scan(toks, p + 1),
            _ => p,
        }
    }
}

/// Collects the texts of the quoted tokens from `a` (inclusive) to `b`
/// (exclusive).
fn take_quoted(toks: &Vec<Tok>, a: usize, b: usize) -> (r: Vec<String>)
    requires
        a <= b <= toks@.len(),
        forall|k: int| a <= k < b ==> (#[trigger] toks_view(toks@)[k]) is Quoted,
    ensures
        r.deep_view() == quoted_texts(toks_view(toks@), a as int, b as int),
    decreases b - a,
{
    if a == b {
        let empty: Vec<String> = Vec::new();
        proof {
            assert(empty.deep_view() =~= quoted_texts(toks_view(toks@), a as int, b as int));
        }
        empty
    } else {
        let mut rest = take_quoted(toks, a + 1, b);
        proof {
            assert(toks_view(toks@)[a as int] == toks@[a as int]@);
        }
        match &toks[a] {
            Tok::Quoted { text } => {
                let ghost prev = rest.deep_view();
                let ghost prev_raw = rest@;
                let cloned = text.clone();
                let ghost cv = cloned;
                rest.insert(0, cloned);
                proof {
                    prev_raw.insert_ensures(0, cv);
                    assert(prev_raw.len() == prev.len());
                    assert(prev.len() == b - a - 1);
                    let tv = toks_view(toks@);
                    assert(quoted_texts(tv, a as int, b as int).len() == b - a);
                    let want = quoted_texts(tv, a as int, b as int);
                    assert(rest.deep_view().len() == want.len());
                    assert forall|k: int| 0 <= k < want.len() implies rest.deep_view()[k] == want[k] by {
                        if k == 0 {
                            assert(rest@[0]@ == tv[a as int]->Quoted_text);
                        } else {
                            assert(rest@[k] == prev_raw[k - 1]);
                            assert(prev[k - 1] == quoted_texts(tv, a + 1, b as int)[k - 1]);
                        }
                    }
                    assert(rest.deep_view() =~= want);
                }
                rest
            },
            _ => {
                proof {
                    assert(false);
                }
                rest
            },
        }
    }
}

/// Builds the folder a declaration denotes from the metadata in force.
fn make_folder(meta: &Vec<(String, String)>, name: String, immediate: bool, buttons: Vec<String>)
    -> (r: Result<Folder, ParseError>)
    ensures
        match r {
            Ok(f) => spec_make_folder(meta_view(meta@), name@, immediate, buttons.deep_view())
                == Ok::<FolderSpec, ParseError>(f@),
            Err(e) => spec_make_folder(meta_view(meta@), name@, immediate, buttons.deep_view())
                == Err::<FolderSpec, ParseError>(e),
        },
{
    let default_name = match meta_find(meta, "default") {
        Some(v) => v,
        None => {
            return Err(ParseError::MissingKey);
        },
    };
    let default = str_eq(default_name.as_str(), name.as_str());
    let rows_text = match meta_find(meta, "rows") {
        Some(v) => v,
        None => {
            return Err(ParseError::MissingKey);
        },
    };
    let rows = match parse_usize(rows_text.as_str()) {
        Some(v) => v,
        None => {
            return Err(ParseError::BadNumber);
        },
    };
    let cols_text = match meta_find(meta, "cols") {
        Some(v) => v,
        None => {
            return Err(ParseError::MissingKey);
        },
    };
    let cols = match parse_usize(cols_text.as_str()) {
        Some(v) => v,
        None => {
            return Err(ParseError::BadNumber);
        },
    };
    Ok(Folder { name, default, immediate, rows, cols, buttons })
}

/// Builds the parsed system once all tokens are consumed.
fn finalize(meta: &Vec<(String, String)>, folders: Vec<Folder>) -> (r: Result<System, ParseError>)
    ensures
        match r {
            Ok(sys) => spec_finalize(meta_view(meta@), folders_view(folders@)) == Ok::<SystemSpec, ParseError>(sys@),
            Err(e) => spec_finalize(meta_view(meta@), folders_view(folders@)) == Err::<
                SystemSpec,
                ParseError,
            >(e),
        },
{
    let name = match meta_find(meta, "name") {
        Some(v) => v.clone(),
        None => {
            return Err(ParseError::MissingKey);
        },
    };
    let description = match meta_find(meta, "description") {
        Some(v) => v.clone(),
        None => {
            return Err(ParseError::MissingKey);
        },
    };
    let default = match meta_find(meta, "default") {
        Some(v) => v.clone(),
        None => {
            return Err(ParseError::MissingKey);
        },
    };
    let rows_text = match meta_find(meta, "rows") {
        Some(v) => v,
        None => {
            return Err(ParseError::MissingKey);
        },
    };
    let rows = match parse_usize(rows_text.as_str()) {
        Some(v) => v,
        None => {
            return Err(ParseError::BadNumber);
        },
    };
    let cols_text = match meta_find(meta, "cols") {
        Some(v) => v,
        None => {
            return Err(ParseError::MissingKey);
        },
    };
    let cols = match parse_usize(cols_text.as_str()) {
        Some(v) => v,
        None => {
            return Err(ParseError::BadNumber);
        },
    };
    Ok(System { name, description, default, rows, cols, folders })
}

/// Parses the items from token position `p` on, given the metadata bindings
/// and folders gathered so far.
fn parse_items(toks: &Vec<Tok>, p: usize, meta: Vec<(String, String)>, folders: Vec<Folder>) -> (r:
    Result<System, ParseError>)
    requires
        p <= toks@.len(),
    ensures
        lift_sys(r) == spec_parse_at(
            toks_view(toks@),
            p as int,
            meta_view(meta@),
            folders_view(folders@),
        ),
    decreases toks@.len() - p,
{
    proof {
        assert(toks_view(toks@).len() == toks@.len());
    }
    if p == toks.len() {
        return finalize(&meta, folders);
    }
    proof {
        assert(toks_view(toks@)[p as int] == toks@[p as int]@);
    }
    match &toks[p] {
        Tok::Word { text } => {
            if str_eq(text.as_str(), "folder") {
                // A folder declaration.
                if toks.len() - p < 5 {
                    return Err(ParseError::UnexpectedToken);
                }
                proof {
                    assert(toks_view(toks@)[p + 1] == toks@[p + 1]@);
                    assert(toks_view(toks@)[p + 2] == toks@[p + 2]@);
                    assert(toks_view(toks@)[p + 3] == toks@[p + 3]@);
                    assert(toks_view(toks@)[p + 4] == toks@[p + 4]@);
                }
                let name = match &toks[p + 1] {
                    Tok::Quoted { text } => text.clone(),
                    _ => {
                        return Err(ParseError::UnexpectedToken);
                    },
                };
                match &toks[p + 2] {
                    Tok::Open => {},
                    _ => {
                        return Err(ParseError::UnexpectedToken);
                    },
                }
                let mode = match &toks[p + 3] {
                    Tok::Word { text } => text,
                    _ => {
                        return Err(ParseError::UnexpectedToken);
                    },
                };
                match &toks[p + 4] {
                    Tok::Close => {},
                    _ => {
                        return Err(ParseError::UnexpectedToken);
                    },
                }
                let q = quoted_run_scan(toks, p + 5);
                if q == toks.len() {
                    return Err(ParseError::UnexpectedToken);
                }
                proof {
                    assert(toks_view(toks@)[q as int] == toks@[q as int]@);
                }
                match &toks[q] {
                    Tok::Semi => {},
                    _ => {
                        return Err(ParseError::UnexpectedToken);
                    },
                }
                let immediate = if str_eq(mode.as_str(), "immediate") {
                    true
                } else if str_eq(mode.as_str(), "append") {
                    false
                } else {
                    return Err(ParseError::InvalidMode);
                };
                proof {
                    lemma_quoted_run_quoted(toks_view(toks@), p + 5);
                }
                let buttons = take_quoted(toks, p + 5, q);
                match make_folder(&meta, name, immediate, buttons) {
                    Ok(f) => {
                        let mut folders = folders;
                        let ghost prev = folders@;
                        let ghost fv = f@;
                        folders.push(f);
                        proof {
                            assert(folders_view(folders@) =~= folders_view(prev).push(fv));
                        }
                        parse_items(toks, q + 1, meta, folders)
                    },
                    Err(e) => Err(e),
                }
            } else {
                // An assignment.
                if toks.len() - p < 3 {
                    return Err(ParseError::UnexpectedToken);
                }
                proof {
                    assert(toks_view(toks@)[p + 1] == toks@[p + 1]@);
                    assert(toks_view(toks@)[p + 2] == toks@[p + 2]@);
                }
                match &toks[p + 1] {
                    Tok::Equals => {},
                    _ => {
                        return Err(ParseError::UnexpectedToken);
                    },
                }
                let value = match &toks[p + 2] {
                    Tok::Quoted { text } => text.clone(),
                    Tok::Word { text } => text.clone(),
                    _ => {
                        return Err(ParseError::UnexpectedToken);
                    },
                };
                let key = text.clone();
                let mut meta = meta;
                let ghost prev = meta@;
                let ghost kv = (key@, value@);
                meta.insert(0, (key, value));
                proof {
                    assert(meta_view(meta@) =~= seq![kv] + meta_view(prev));
                }
                parse_items(toks, p + 3, meta, folders)
            }
        },
        _ => Err(ParseError::UnexpectedToken),
    }
}

/// Parses a whole system-definition text: exactly the system that
/// `spec_parse` ascribes to it, or exactly the error.
pub fn parse(system: &str) -> (r: Result<System, ParseError>)
    ensures
        lift_sys(r) == spec_parse(system@),
{
    match tokenize(system) {
        Ok(toks) => {
            let meta: Vec<(String, String)> = Vec::new();
            let folders: Vec<Folder> = Vec::new();
            proof {
                assert(meta_view(meta@) =~= Seq::<(Seq<char>, Seq<char>)>::empty());
                assert(folders_view(folders@) =~= Seq::<FolderSpec>::empty());
            }
            parse_items(&toks, 0, meta, folders)
        },
        Err(e) => Err(e),
    }
}

} // verus!
