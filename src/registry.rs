//! The method registry: what a service publishes, how many parameters
//! each method takes, and which methods keep their parameters out of logs.
use vstd::prelude::*;
use crate::value::Value;
use crate::json_text::{json_text, dump_json};

verus! {

/// How many parameters a method takes.
#[derive(Debug, Clone, Copy, PartialEq, Eq, Structural)]
pub enum ParamCount {
    Any,
    Exact(u8),
    AtLeast(u8),
    Range(u8, u8),
}

/// `n` parameters suit arity `c`.
pub open spec fn count_fits(c: ParamCount, n: nat) -> bool {
    match c {
        ParamCount::Any => true,
        ParamCount::Exact(k) => n == k,
        ParamCount::AtLeast(k) => n >= k,
        ParamCount::Range(lo, hi) => lo <= n <= hi,
    }
}

impl ParamCount {
    /// True if `n` parameters suit this arity.
    pub fn matches(&self, n: usize) -> (r: bool)
        ensures
            r == count_fits(*self, n as nat),
    {
        match self {
            ParamCount::Any => true,
            ParamCount::Exact(k) => n == *k as usize,
            ParamCount::AtLeast(k) => n >= *k as usize,
            ParamCount::Range(lo, hi) => *lo as usize <= n && n <= *hi as usize,
        }
    }

    /// The arity as text: `any`, `3`, `3+` or `1-3`.
    pub fn describe(&self) -> (r: String)
        ensures
            r@ == arity_text(*self),
    {
        match self {
            ParamCount::Any => "any".to_owned(),
            ParamCount::Exact(k) => decimal_string(*k as u64),
            ParamCount::AtLeast(k) => decimal_string(*k as u64).concat("+"),
            ParamCount::Range(lo, hi) => decimal_string(*lo as u64).concat("-").concat(decimal_string(*hi as u64).as_str()),
        }
    }
}

/// The text of an arity.
pub open spec fn arity_text(c: ParamCount) -> Seq<char> {
    match c {
        ParamCount::Any => "any"@,
        ParamCount::Exact(k) => decimal(k as nat),
        ParamCount::AtLeast(k) => decimal(k as nat) + "+"@,
        ParamCount::Range(lo, hi) => decimal(lo as nat) + "-"@ + decimal(hi as nat),
    }
}

/// The decimal digit for `d`.
pub open spec fn digit(d: nat) -> char {
    if d == 0 {
        '0'
    } else if d == 1 {
        '1'
    } else if d == 2 {
        '2'
    } else if d == 3 {
        '3'
    } else if d == 4 {
        '4'
    } else if d == 5 {
        '5'
    } else if d == 6 {
        '6'
    } else if d == 7 {
        '7'
    } else if d == 8 {
        '8'
    } else {
        '9'
    }
}

/// `n` written in decimal.
pub open spec fn decimal(n: nat) -> Seq<char>
    decreases n,
{
    if n < 10 {
        seq![digit(n)]
    } else {
        decimal(n / 10) + seq![digit(n % 10)]
    }
}

/// The one-character text of digit `d`.
fn digit_str(d: u64) -> (r: &'static str)
    requires
        d < 10,
    ensures
        r@ == seq![digit(d as nat)],
{
    proof {
        reveal_strlit("0");
        reveal_strlit("1");
        reveal_strlit("2");
        reveal_strlit("3");
        reveal_strlit("4");
        reveal_strlit("5");
        reveal_strlit("6");
        reveal_strlit("7");
        reveal_strlit("8");
        reveal_strlit("9");
    }
    let r = if d == 0 {
        "0"
    } else if d == 1 {
        "1"
    } else if d == 2 {
        "2"
    } else if d == 3 {
        "3"
    } else if d == 4 {
        "4"
    } else if d == 5 {
        "5"
    } else if d == 6 {
        "6"
    } else if d == 7 {
        "7"
    } else if d == 8 {
        "8"
    } else {
        "9"
    };
    assert(r@ =~= seq![digit(d as nat)]);
    r
}

/// `n` written in decimal.
pub fn decimal_string(n: u64) -> (r: String)
    ensures
        r@ == decimal(n as nat),
    decreases n,
{
    if n < 10 {
        digit_str(n).to_owned()
    } else {
        decimal_string(n / 10).concat(digit_str(n % 10))
    }
}

/// A published method: its name, its arity, and whether its responses
/// are gathered into one array.
#[derive(Debug)]
pub struct MethodDef {
    pub name: String,
    pub param_count: ParamCount,
    pub atomic: bool,
}

/// Finds the method named `name`.
pub fn find_method(methods: &Vec<MethodDef>, name: &String) -> (r: Option<usize>)
    ensures
        match r {
            Some(i) => i < methods.len() && methods@[i as int].name@ == name@
                && forall|j: int| 0 <= j < i ==> (#[trigger] methods@[j]).name@ != name@,
            None => forall|j: int| 0 <= j < methods.len() ==> (#[trigger] methods@[j]).name@ != name@,
        },
{
    let mut i: usize = 0;
    while i < methods.len()
        invariant
            i <= methods.len(),
            forall|j: int| 0 <= j < i ==> (#[trigger] methods@[j]).name@ != name@,
        decreases methods.len() - i,
    {
        if methods[i].name == *name {
            return Some(i);
        }
        i = i + 1;
    }
    None
}

/// `s` starts with `prefix`.
pub fn starts_with(s: &String, prefix: &String) -> (r: bool)
    ensures
        r == prefix@.is_prefix_of(s@),
{
    let n = prefix.as_str().unicode_len();
    let m = s.as_str().unicode_len();
    if n > m {
        return false;
    }
    let mut i: usize = 0;
    while i < n
        invariant
            n == prefix@.len(),
            m == s@.len(),
            n <= m,
            i <= n,
            forall|j: int| 0 <= j < i ==> prefix@[j] == s@[j],
        decreases n - i,
    {
        if prefix.as_str().get_char(i) != s.as_str().get_char(i) {
            return false;
        }
        i = i + 1;
    }
    true
}

/// Some protected prefix starts `method`.
pub open spec fn is_protected(method: Seq<char>, prefixes: Seq<String>) -> bool {
    exists|i: int| 0 <= i < prefixes.len() && (#[trigger] prefixes[i])@.is_prefix_of(method)
}

/// True if a method's parameters are to be kept out of logs: some
/// configured prefix starts its name.
pub fn log_protected(method: &String, prefixes: &Vec<String>) -> (r: bool)
    ensures
        r == is_protected(method@, prefixes@),
{
    let mut i: usize = 0;
    while i < prefixes.len()
        invariant
            i <= prefixes.len(),
            forall|j: int| 0 <= j < i ==> !(#[trigger] prefixes@[j])@.is_prefix_of(method@),
        decreases prefixes.len() - i,
    {
        if starts_with(method, &prefixes[i]) {
            return true;
        }
        i = i + 1;
    }
    false
}

/// What stands in a log line for the parameters of a protected method.
pub const REDACTED_PARAMS: &'static str = "**PARAMS REDACTED**";

/// The json texts of `params`, joined by `", "`.
pub open spec fn joined_params(params: Seq<Value>) -> Seq<char>
    decreases params.len(),
{
    if params.len() == 0 {
        Seq::empty()
    } else if params.len() == 1 {
        json_text(params[0])
    } else {
        joined_params(params.drop_last()) + ", "@ + json_text(params.last())
    }
}

/// The parameters of a call as they go into the log: their json texts
/// joined by `", "`, or `REDACTED_PARAMS` for a protected method.
pub fn log_params(method: &String, params: &Vec<Value>, prefixes: &Vec<String>) -> (r: String)
    ensures
        r@ == if is_protected(method@, prefixes@) {
            REDACTED_PARAMS@
        } else {
            joined_params(params@)
        },
{
    if log_protected(method, prefixes) {
        return REDACTED_PARAMS.to_owned();
    }
    let mut out = String::new();
    let mut i: usize = 0;
    while i < params.len()
        invariant
            i <= params.len(),
            out@ == joined_params(params@.subrange(0, i as int)),
        decreases params.len() - i,
    {
        let ghost pre = params@.subrange(0, i as int);
        let text = dump_json(&params[i]);
        if i == 0 {
            out = text;
        } else {
            out = out.concat(", ").concat(text.as_str());
        }
        proof {
            let next = params@.subrange(0, i + 1);
            assert(next.drop_last() =~= pre);
            assert(next.last() == params@[i as int]);
        }
        i = i + 1;
    }
    proof {
        assert(params@.subrange(0, params.len() as int) =~= params@);
    }
    out
}

} // verus!
