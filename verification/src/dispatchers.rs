//! Validation of the interrupts that software tasks are dispatched from.
//!
//! On the ESP32-C3 and ESP32-C6 only the four CPU-to-CPU interrupts
//! `FROM_CPU_INTR0` to `FROM_CPU_INTR3` can serve as dispatchers; the SLIC can
//! route any interrupt.
use vstd::prelude::*;
use vstd::string::StringExecFns;

use crate::features::Target;

verus! {

/// A dispatcher that the target cannot use: the position of the first such
/// dispatcher in the application's list.
#[derive(Clone, Copy, Debug, PartialEq, Eq, Structural)]
pub struct DispatcherError {
    pub index: usize,
}

/// Whether `c` has the Unicode `White_Space` property, the whitespace that
/// `str::trim` removes.
pub open spec fn is_white_space(c: char) -> bool {
    let u = c as u32;
    ||| 0x9 <= u <= 0xD
    ||| u == 0x20
    ||| u == 0x85
    ||| u == 0xA0
    ||| u == 0x1680
    ||| 0x2000 <= u <= 0x200A
    ||| u == 0x2028
    ||| u == 0x2029
    ||| u == 0x202F
    ||| u == 0x205F
    ||| u == 0x3000
}

/// `s` without its leading whitespace.
pub open spec fn trim_start(s: Seq<char>) -> Seq<char>
    decreases s.len(),
{
    if s.len() > 0 && is_white_space(s[0]) {
        trim_start(s.drop_first())
    } else {
        s
    }
}

/// `s` without its trailing whitespace.
pub open spec fn trim_end(s: Seq<char>) -> Seq<char>
    decreases s.len(),
{
    if s.len() > 0 && is_white_space(s.last()) {
        trim_end(s.drop_last())
    } else {
        s
    }
}

/// `s` without its leading and trailing whitespace.
pub open spec fn trimmed(s: Seq<char>) -> Seq<char> {
    trim_end(trim_start(s))
}

/// Spaces, tabs, line feeds, vertical tabs, form feeds and carriage returns are
/// whitespace; ASCII letters, digits and `_` (all that dispatcher names are made
/// of) are not.
pub proof fn law_white_space_ascii(c: char)
    ensures
        c == ' ' || c == '\t' || c == '\n' || c == '\r' || c == '\u{0B}' || c == '\u{0C}'
            ==> is_white_space(c),
        ('0' <= c <= '9' || 'A' <= c <= 'Z' || 'a' <= c <= 'z' || c == '_') ==> !is_white_space(c),
{
}

/// `trim_start(s)` is a suffix of `s`: it drops the leading whitespace and keeps
/// the rest unchanged, starting at a character that is not whitespace.
proof fn lemma_trim_start(s: Seq<char>) -> (i: int)
    ensures
        0 <= i <= s.len(),
        trim_start(s) == s.subrange(i, s.len() as int),
        forall|k: int| 0 <= k < i ==> is_white_space(#[trigger] s[k]),
        i < s.len() ==> !is_white_space(s[i]),
    decreases s.len(),
{
    if s.len() > 0 && is_white_space(s[0]) {
        let t = s.drop_first();
        let i1 = lemma_trim_start(t);
        assert(t.subrange(i1, t.len() as int) =~= s.subrange(i1 + 1, s.len() as int));
        assert forall|k: int| 0 <= k < i1 + 1 implies is_white_space(#[trigger] s[k]) by {
            if k > 0 {
                assert(s[k] == t[k - 1]);
            }
        }
        i1 + 1
    } else {
        assert(s.subrange(0, s.len() as int) =~= s);
        0
    }
}

/// `trim_end(s)` is a prefix of `s`: it drops the trailing whitespace and keeps
/// the rest unchanged, ending at a character that is not whitespace.
proof fn lemma_trim_end(s: Seq<char>) -> (j: int)
    ensures
        0 <= j <= s.len(),
        trim_end(s) == s.subrange(0, j),
        forall|k: int| j <= k < s.len() ==> is_white_space(#[trigger] s[k]),
        j > 0 ==> !is_white_space(s[j - 1]),
    decreases s.len(),
{
    if s.len() > 0 && is_white_space(s.last()) {
        let t = s.drop_last();
        let j1 = lemma_trim_end(t);
        assert(t.subrange(0, j1) =~= s.subrange(0, j1));
        assert forall|k: int| j1 <= k < s.len() implies is_white_space(#[trigger] s[k]) by {
            if k < s.len() - 1 {
                assert(s[k] == t[k]);
            }
        }
        j1
    } else {
        assert(s.subrange(0, s.len() as int) =~= s);
        s.len() as int
    }
}

/// Trimming keeps a contiguous part of the string unchanged and removes only
/// whitespace around it; what it keeps neither starts nor ends with whitespace.
pub proof fn law_trimmed(s: Seq<char>)
    ensures
        exists|i: int, j: int|
            {
                &&& 0 <= i <= j <= s.len()
                &&& trimmed(s) == s.subrange(i, j)
                &&& forall|k: int| 0 <= k < i ==> is_white_space(#[trigger] s[k])
                &&& forall|k: int| j <= k < s.len() ==> is_white_space(#[trigger] s[k])
                &&& i < j ==> !is_white_space(s[i]) && !is_white_space(s[j - 1])
            },
{
    let i = lemma_trim_start(s);
    let t = trim_start(s);
    let j1 = lemma_trim_end(t);
    let j = i + j1;
    assert(trimmed(s) =~= s.subrange(i, j));
    assert forall|k: int| j <= k < s.len() implies is_white_space(#[trigger] s[k]) by {
        assert(s[k] == t[k - i]);
    }
    if i < j {
        assert(s[i] == t[0]);
        assert(s[j - 1] == t[j1 - 1]);
    }
}

/// Calls `str::trim`, which, as its documentation states, returns the string
/// with its leading and trailing Unicode `White_Space` characters removed and
/// the rest unchanged.
#[verifier::external_body]
fn trim(s: &str) -> (r: &str)
    ensures
        r@ == trimmed(s@),
{
    s.trim()
}

/// Whether `name` is one of the interrupts the ESP32 chips can dispatch from.
pub open spec fn allowed_dispatcher(name: Seq<char>) -> bool {
    ||| name == "FROM_CPU_INTR0"@
    ||| name == "FROM_CPU_INTR1"@
    ||| name == "FROM_CPU_INTR2"@
    ||| name == "FROM_CPU_INTR3"@
}

/// Whether `name` is `FROM_CPU_INTR` followed by one digit from 0 to 3.
pub open spec fn cpu_interrupt_name(name: Seq<char>) -> bool {
    &&& name.len() == 14
    &&& name.subrange(0, 13) == "FROM_CPU_INTR"@
    &&& '0' <= name[13] <= '3'
}

/// The dispatchers the ESP32 chips accept are exactly the four CPU-to-CPU
/// interrupts: `FROM_CPU_INTR` followed by a digit from 0 to 3, and no other name.
pub proof fn law_allowed_dispatchers(name: Seq<char>)
    ensures
        allowed_dispatcher(name) <==> cpu_interrupt_name(name),
{
    reveal_strlit("FROM_CPU_INTR");
    reveal_strlit("FROM_CPU_INTR0");
    reveal_strlit("FROM_CPU_INTR1");
    reveal_strlit("FROM_CPU_INTR2");
    reveal_strlit("FROM_CPU_INTR3");
    if allowed_dispatcher(name) {
        assert(name.subrange(0, 13) =~= "FROM_CPU_INTR"@);
    }
    if cpu_interrupt_name(name) {
        let prefix = name.subrange(0, 13);
        if name[13] == '0' {
            assert(name =~= "FROM_CPU_INTR0"@) by {
                assert forall|i: int| 0 <= i < 13 implies name[i] == "FROM_CPU_INTR0"@[i] by {
                    assert(prefix[i] == name[i]);
                }
            }
        } else if name[13] == '1' {
            assert(name =~= "FROM_CPU_INTR1"@) by {
                assert forall|i: int| 0 <= i < 13 implies name[i] == "FROM_CPU_INTR1"@[i] by {
                    assert(prefix[i] == name[i]);
                }
            }
        } else if name[13] == '2' {
            assert(name =~= "FROM_CPU_INTR2"@) by {
                assert forall|i: int| 0 <= i < 13 implies name[i] == "FROM_CPU_INTR2"@[i] by {
                    assert(prefix[i] == name[i]);
                }
            }
        } else {
            assert(name =~= "FROM_CPU_INTR3"@) by {
                assert forall|i: int| 0 <= i < 13 implies name[i] == "FROM_CPU_INTR3"@[i] by {
                    assert(prefix[i] == name[i]);
                }
            }
        }
    }
}

/// Whether the dispatcher named `name` (already trimmed) is usable on the ESP32 chips.
pub fn is_allowed_dispatcher(name: &str) -> (r: bool)
    ensures
        r == allowed_dispatcher(name@),
        r <==> cpu_interrupt_name(name@),
{
    proof {
        law_allowed_dispatchers(name@);
    }
    let owned = name.to_owned();
    owned == String::from_str("FROM_CPU_INTR0") || owned == String::from_str("FROM_CPU_INTR1")
        || owned == String::from_str("FROM_CPU_INTR2") || owned == String::from_str(
        "FROM_CPU_INTR3",
    )
}

/// The position of the first dispatcher whose trimmed name is not usable on the
/// ESP32 chips, if there is one.
pub fn first_invalid_dispatcher(names: &Vec<String>) -> (r: Option<usize>)
    ensures
        match r {
            Some(i) => {
                &&& i < names.len()
                &&& !allowed_dispatcher(trimmed(names@[i as int]@))
                &&& forall|j: int| 0 <= j < i ==> allowed_dispatcher(trimmed((#[trigger] names@[j])@))
            },
            None => forall|j: int|
                0 <= j < names.len() ==> allowed_dispatcher(trimmed((#[trigger] names@[j])@)),
        },
{
    let mut i: usize = 0;
    while i < names.len()
        invariant
            i <= names.len(),
            forall|j: int| 0 <= j < i ==> allowed_dispatcher(trimmed((#[trigger] names@[j])@)),
        decreases names.len() - i,
    {
        if !is_allowed_dispatcher(trim(names[i].as_str())) {
            return Some(i);
        }
        i = i + 1;
    }
    None
}

/// Checks the application's dispatchers before code generation. On the ESP32
/// chips, when the software-task pass has declared dispatchers, the first one
/// that is not `FROM_CPU_INTR0..3` is refused; everything else is accepted.
pub fn pre_codegen_validation(target: Target, dispatchers: Option<&Vec<String>>) -> (r: Result<
    (),
    DispatcherError,
>)
    ensures
        match (target, dispatchers) {
            (Target::Esp32(_), Some(names)) => match r {
                Err(e) => {
                    &&& e.index < names.len()
                    &&& !allowed_dispatcher(trimmed(names@[e.index as int]@))
                    &&& forall|j: int|
                        0 <= j < e.index ==> allowed_dispatcher(trimmed((#[trigger] names@[j])@))
                },
                Ok(_) => forall|j: int|
                    0 <= j < names.len() ==> allowed_dispatcher(trimmed((#[trigger] names@[j])@)),
            },
            _ => r is Ok,
        },
        match (target, dispatchers) {
            (Target::Esp32(_), Some(names)) => match r {
                Err(e) => {
                    &&& e.index < names.len()
                    &&& !cpu_interrupt_name(trimmed(names@[e.index as int]@))
                    &&& forall|j: int|
                        0 <= j < e.index ==> cpu_interrupt_name(trimmed((#[trigger] names@[j])@))
                },
                Ok(_) => forall|j: int|
                    0 <= j < names.len() ==> cpu_interrupt_name(trimmed((#[trigger] names@[j])@)),
            },
            _ => true,
        },
{
    proof {
        if let Some(names) = dispatchers {
            assert forall|j: int| 0 <= j < names.len() implies (allowed_dispatcher(
                trimmed((#[trigger] names@[j])@),
            ) <==> cpu_interrupt_name(trimmed(names@[j]@))) by {
                law_allowed_dispatchers(trimmed(names@[j]@));
            }
        }
    }
    match target {
        Target::Slic(_) => Ok(()),
        Target::Esp32(_) => match dispatchers {
            None => Ok(()),
            Some(names) => match first_invalid_dispatcher(names) {
                Some(index) => Err(DispatcherError { index }),
                None => Ok(()),
            },
        },
    }
}

} // verus!
