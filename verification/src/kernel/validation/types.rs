//! Error codes and errors reported by the NanoCheck validators.

use vstd::prelude::*;
use crate::text::{chars_of, decimal, push_decimal, string_push_str, to_owned_string};

pub mod err;

verus! {

/// Error code categories: syntax (E), type (T), domain (D) and overflow (O).
#[derive(Debug, Clone, Copy, PartialEq, Eq, Hash, Structural)]
pub enum ErrorCode {
    E001,
    E002,
    E003,
    E004,
    E005,
    T001,
    T002,
    D001,
    D002,
    D003,
    D004,
    D005,
    O001,
    O002,
}

impl ErrorCode {
    /// The code as it is displayed, such as `E001`.
    pub open spec fn code_text(self) -> Seq<char> {
        match self {
            ErrorCode::E001 => "E001"@,
            ErrorCode::E002 => "E002"@,
            ErrorCode::E003 => "E003"@,
            ErrorCode::E004 => "E004"@,
            ErrorCode::E005 => "E005"@,
            ErrorCode::T001 => "T001"@,
            ErrorCode::T002 => "T002"@,
            ErrorCode::D001 => "D001"@,
            ErrorCode::D002 => "D002"@,
            ErrorCode::D003 => "D003"@,
            ErrorCode::D004 => "D004"@,
            ErrorCode::D005 => "D005"@,
            ErrorCode::O001 => "O001"@,
            ErrorCode::O002 => "O002"@,
        }
    }

    /// The displayed form of the code.
    pub fn to_string(&self) -> (r: String)
        ensures
            r@ == self.code_text(),
    {
        let s = match self {
            ErrorCode::E001 => "E001",
            ErrorCode::E002 => "E002",
            ErrorCode::E003 => "E003",
            ErrorCode::E004 => "E004",
            ErrorCode::E005 => "E005",
            ErrorCode::T001 => "T001",
            ErrorCode::T002 => "T002",
            ErrorCode::D001 => "D001",
            ErrorCode::D002 => "D002",
            ErrorCode::D003 => "D003",
            ErrorCode::D004 => "D004",
            ErrorCode::D005 => "D005",
            ErrorCode::O001 => "O001",
            ErrorCode::O002 => "O002",
        };
        to_owned_string(s)
    }
}

/// The key/value map of extra context carried by a validation error.
/// Each key occurs once; inserting an existing key replaces its value.
#[derive(Debug, Clone)]
pub struct ContextMap {
    entries: Vec<(String, String)>,
}

/// The map that a sequence of entries denotes, later entries winning.
pub open spec fn entries_map(s: Seq<(String, String)>) -> Map<Seq<char>, Seq<char>>
    decreases s.len(),
{
    if s.len() == 0 {
        Map::empty()
    } else {
        entries_map(s.drop_last()).insert(s.last().0@, s.last().1@)
    }
}

/// No key occurs twice.
pub open spec fn distinct_keys(s: Seq<(String, String)>) -> bool {
    forall|i: int, j: int| 0 <= i < s.len() && 0 <= j < s.len() && i != j
        ==> #[trigger] s[i].0@ != #[trigger] s[j].0@
}

proof fn lemma_entries_map_index(s: Seq<(String, String)>, i: int)
    requires
        distinct_keys(s),
        0 <= i < s.len(),
    ensures
        entries_map(s).contains_key(s[i].0@),
        entries_map(s)[s[i].0@] == s[i].1@,
    decreases s.len(),
{
    if i < s.len() - 1 {
        lemma_entries_map_index(s.drop_last(), i);
        assert(s.drop_last()[i] == s[i]);
        assert(s[i].0@ != s[s.len() - 1].0@);
    }
}

proof fn lemma_entries_map_absent(s: Seq<(String, String)>, k: Seq<char>)
    requires
        forall|i: int| 0 <= i < s.len() ==> #[trigger] s[i].0@ != k,
    ensures
        !entries_map(s).contains_key(k),
    decreases s.len(),
{
    if s.len() > 0 {
        assert forall|i: int| 0 <= i < s.drop_last().len() implies #[trigger] s.drop_last()[i].0@ != k by {
            assert(s.drop_last()[i] == s[i]);
        }
        lemma_entries_map_absent(s.drop_last(), k);
        assert(s[s.len() - 1].0@ != k);
    }
}

proof fn lemma_entries_map_update(s: Seq<(String, String)>, j: int, k: String, v: String)
    requires
        distinct_keys(s),
        0 <= j < s.len(),
        s[j].0@ == k@,
    ensures
        entries_map(s.update(j, (k, v))) == entries_map(s).insert(k@, v@),
    decreases s.len(),
{
    let t = s.update(j, (k, v));
    if j == s.len() - 1 {
        assert(t.drop_last() =~= s.drop_last());
        assert(entries_map(t) =~= entries_map(s).insert(k@, v@));
    } else {
        assert(t.drop_last() =~= s.drop_last().update(j, (k, v)));
        assert(distinct_keys(s.drop_last())) by {
            assert forall|a: int, b: int| 0 <= a < s.drop_last().len() && 0 <= b < s.drop_last().len() && a != b
                implies #[trigger] s.drop_last()[a].0@ != #[trigger] s.drop_last()[b].0@ by {
                assert(s.drop_last()[a] == s[a] && s.drop_last()[b] == s[b]);
            }
        }
        assert(s.drop_last()[j] == s[j]);
        lemma_entries_map_update(s.drop_last(), j, k, v);
        assert(s[s.len() - 1].0@ != k@);
        assert(t.last() == s.last());
        assert(entries_map(t) =~= entries_map(s).insert(k@, v@));
    }
}

impl View for ContextMap {
    type V = Map<Seq<char>, Seq<char>>;

    closed spec fn view(&self) -> Map<Seq<char>, Seq<char>> {
        entries_map(self.entries@)
    }
}

impl ContextMap {
    /// Each key occurs once.
    pub closed spec fn wf(&self) -> bool {
        distinct_keys(self.entries@)
    }

    /// An empty map.
    pub fn new() -> (m: Self)
        ensures
            m.wf(),
            m@ == Map::<Seq<char>, Seq<char>>::empty(),
    {
        ContextMap { entries: Vec::new() }
    }

    /// Number of keys.
    pub fn len(&self) -> (n: usize)
        requires
            self.wf(),
        ensures
            n == self@.dom().len(),
    {
        proof {
            self.lemma_len();
        }
        self.entries.len()
    }

    proof fn lemma_len(&self)
        requires
            self.wf(),
        ensures
            self@.dom().finite(),
            self@.dom().len() == self.entries@.len(),
    {
        lemma_entries_map_len(self.entries@);
    }

    fn find(&self, key: &str) -> (r: Option<usize>)
        requires
            self.wf(),
        ensures
            match r {
                Some(i) => i < self.entries@.len() && self.entries@[i as int].0@ == key@,
                None => forall|i: int| 0 <= i < self.entries@.len() ==> #[trigger] self.entries@[i].0@ != key@,
            },
    {
        let mut i: usize = 0;
        while i < self.entries.len()
            invariant
                i <= self.entries@.len(),
                forall|j: int| 0 <= j < i ==> #[trigger] self.entries@[j].0@ != key@,
            decreases self.entries@.len() - i,
        {
            if str_eq(self.entries[i].0.as_str(), key) {
                return Some(i);
            }
            i = i + 1;
        }
        None
    }

    /// The value stored under `key`, if any.
    pub fn get(&self, key: &str) -> (r: Option<&String>)
        requires
            self.wf(),
        ensures
            match r {
                Some(v) => self@.contains_key(key@) && self@[key@] == v@,
                None => !self@.contains_key(key@),
            },
    {
        match self.find(key) {
            Some(i) => {
                proof {
                    lemma_entries_map_index(self.entries@, i as int);
                }
                Some(&self.entries[i].1)
            },
            None => {
                proof {
                    lemma_entries_map_absent(self.entries@, key@);
                }
                None
            },
        }
    }

    /// Stores `value` under `key`, replacing an earlier value.
    pub fn insert(&mut self, key: String, value: String)
        requires
            old(self).wf(),
        ensures
            final(self).wf(),
            final(self)@ == old(self)@.insert(key@, value@),
    {
        match self.find(key.as_str()) {
            Some(i) => {
                proof {
                    lemma_entries_map_update(self.entries@, i as int, key, value);
                }
                let ghost before = self.entries@;
                self.entries.set(i, (key, value));
                assert(self.entries@ == before.update(i as int, (key, value)));
                assert(distinct_keys(self.entries@)) by {
                    assert forall|a: int, b: int| 0 <= a < self.entries@.len() && 0 <= b < self.entries@.len() && a != b
                        implies #[trigger] self.entries@[a].0@ != #[trigger] self.entries@[b].0@ by {
                        if a != i && b != i {
                            assert(self.entries@[a] == before[a] && self.entries@[b] == before[b]);
                        } else if a == i {
                            assert(self.entries@[b] == before[b]);
                        } else {
                            assert(self.entries@[a] == before[a]);
                        }
                    }
                }
            },
            None => {
                let ghost before = self.entries@;
                self.entries.push((key, value));
                assert(self.entries@.drop_last() =~= before);
                assert(distinct_keys(self.entries@)) by {
                    assert forall|a: int, b: int| 0 <= a < self.entries@.len() && 0 <= b < self.entries@.len() && a != b
                        implies #[trigger] self.entries@[a].0@ != #[trigger] self.entries@[b].0@ by {
                        if a < before.len() && b < before.len() {
                            assert(self.entries@[a] == before[a] && self.entries@[b] == before[b]);
                        } else if a < before.len() {
                            assert(self.entries@[a] == before[a]);
                        } else {
                            assert(self.entries@[b] == before[b]);
                        }
                    }
                }
            },
        }
    }
}

proof fn lemma_entries_map_len(s: Seq<(String, String)>)
    requires
        distinct_keys(s),
    ensures
        entries_map(s).dom().finite(),
        entries_map(s).dom().len() == s.len(),
    decreases s.len(),
{
    if s.len() > 0 {
        let d = s.drop_last();
        assert(distinct_keys(d)) by {
            assert forall|a: int, b: int| 0 <= a < d.len() && 0 <= b < d.len() && a != b
                implies #[trigger] d[a].0@ != #[trigger] d[b].0@ by {
                assert(d[a] == s[a] && d[b] == s[b]);
            }
        }
        lemma_entries_map_len(d);
        assert forall|i: int| 0 <= i < d.len() implies #[trigger] d[i].0@ != s.last().0@ by {
            assert(d[i] == s[i]);
        }
        lemma_entries_map_absent(d, s.last().0@);
    }
}

/// String equality on views.
pub fn str_eq(a: &str, b: &str) -> (r: bool)
    ensures
        r == (a@ == b@),
{
    let va = chars_of(a);
    let vb = chars_of(b);
    if va.len() != vb.len() {
        return false;
    }
    let mut i: usize = 0;
    while i < va.len()
        invariant
            va@ == a@,
            vb@ == b@,
            va@.len() == vb@.len(),
            i <= va@.len(),
            forall|j: int| 0 <= j < i ==> va@[j] == vb@[j],
        decreases va@.len() - i,
    {
        if va[i] != vb[i] {
            return false;
        }
        i = i + 1;
    }
    assert(va@ =~= vb@);
    true
}

/// What a validation error carries, as plain values.
pub struct ValidationErrorView {
    pub code: ErrorCode,
    pub message: Seq<char>,
    pub position: Option<(usize, usize)>,
    pub context: Map<Seq<char>, Seq<char>>,
}

/// A validation error: a code, a message, an optional (line, column) and
/// extra context entries.
#[derive(Debug, Clone)]
pub struct ValidationError {
    pub code: ErrorCode,
    pub message: String,
    pub position: Option<(usize, usize)>,
    pub context: ContextMap,
}

impl View for ValidationError {
    type V = ValidationErrorView;

    open spec fn view(&self) -> ValidationErrorView {
        ValidationErrorView {
            code: self.code,
            message: self.message@,
            position: self.position,
            context: self.context@,
        }
    }
}

/// An error view with no position and no context.
pub open spec fn plain_error(code: ErrorCode, message: Seq<char>) -> ValidationErrorView {
    ValidationErrorView { code, message, position: None, context: Map::empty() }
}

/// An error view at line 1, column `col`, with no context.
pub open spec fn error_at(code: ErrorCode, message: Seq<char>, col: usize) -> ValidationErrorView {
    ValidationErrorView { code, message, position: Some((1, col)), context: Map::empty() }
}

/// The outcome of a validation, as plain values.
pub open spec fn result_view<T>(r: Result<T, ValidationError>) -> Result<T, ValidationErrorView> {
    match r {
        Ok(t) => Ok(t),
        Err(e) => Err(e@),
    }
}

impl ValidationError {
    /// Context entries are kept with each key once.
    pub open spec fn wf(&self) -> bool {
        self.context.wf()
    }

    /// An error with the given code and message, no position and no context.
    pub fn new(code: ErrorCode, message: &str) -> (e: Self)
        ensures
            e.wf(),
            e@ == plain_error(code, message@),
    {
        ValidationError {
            code,
            message: to_owned_string(message),
            position: None,
            context: ContextMap::new(),
        }
    }

    /// The same error located at (line, column).
    pub fn with_position(self, line: usize, col: usize) -> (e: Self)
        ensures
            e@ == (ValidationErrorView { position: Some((line, col)), ..self@ }),
            self.wf() ==> e.wf(),
    {
        let mut e = self;
        e.position = Some((line, col));
        e
    }

    /// The same error with one more context entry (replacing an earlier value for the key).
    pub fn with_context(self, key: &str, value: &str) -> (e: Self)
        requires
            self.wf(),
        ensures
            e.wf(),
            e@ == (ValidationErrorView { context: self@.context.insert(key@, value@), ..self@ }),
    {
        let mut e = self;
        e.context.insert(to_owned_string(key), to_owned_string(value));
        e
    }

    /// The displayed form: `[CODE] 行L列C: message`, or `[CODE] 未知位置: message`
    /// when the error has no position.
    pub fn to_string(&self) -> (r: String)
        ensures
            r@ == display_error(self@),
    {
        let mut r = String::new();
        string_push_str(&mut r, "[");
        let code = self.code.to_string();
        string_push_str(&mut r, code.as_str());
        string_push_str(&mut r, "] ");
        match self.position {
            Some((line, col)) => {
                string_push_str(&mut r, "行");
                push_decimal(&mut r, line as u64);
                string_push_str(&mut r, "列");
                push_decimal(&mut r, col as u64);
            },
            None => {
                string_push_str(&mut r, "未知位置");
            },
        }
        string_push_str(&mut r, ": ");
        string_push_str(&mut r, self.message.as_str());
        assert(r@ =~= display_error(self@));
        r
    }
}

/// `[CODE] 行L列C: message` or `[CODE] 未知位置: message`.
pub open spec fn display_error(e: ValidationErrorView) -> Seq<char> {
    let pos = match e.position {
        Some((line, col)) => "行"@ + decimal(line as nat) + "列"@ + decimal(col as nat),
        None => "未知位置"@,
    };
    Seq::<char>::empty() + "["@ + e.code.code_text() + "] "@ + pos + ": "@ + e.message
}

/// Result of a validation step.
pub type ValidationResult<T> = Result<T, ValidationError>;

} // verus!
