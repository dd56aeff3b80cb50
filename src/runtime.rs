//! Which kind of scheduler runs the adapters, and so how blocking calls
//! into the store are run.
use vstd::prelude::*;

verus! {

pub const RUNTIME_TYPE_BASIC: u32 = 1;

pub const RUNTIME_TYPE_THREADPOOL: u32 = 2;

/// The scheduler kind: a single-threaded one, where blocking work goes to a
/// worker, or a thread pool, where it may run in place.
#[derive(Clone, Copy, Debug, PartialEq, Eq, Structural)]
pub enum RuntimeType {
    Basic,
    ThreadPool,
}

/// `needle` occurs in `hay`.
pub open spec fn occurs_in(needle: Seq<char>, hay: Seq<char>) -> bool {
    exists|i: int| 0 <= i && i + needle.len() <= hay.len() && #[trigger] hay.subrange(i, i + needle.len()) == needle
}

/// Whether `needle` occurs in `hay`.
pub fn contains(hay: &str, needle: &str) -> (r: bool)
    ensures
        r == occurs_in(needle@, hay@),
{
    let n = hay.unicode_len();
    let m = needle.unicode_len();
    if m > n {
        return false;
    }
    if m == 0 {
        assert(hay@.subrange(0, 0 + needle@.len() as int) =~= needle@);
        return true;
    }
    let mut i: usize = 0;
    while i <= n - m
        invariant
            n == hay@.len(),
            m == needle@.len(),
            0 < m <= n,
            i <= n - m + 1,
            forall|k: int| 0 <= k < i ==> #[trigger] hay@.subrange(k, k + m) != needle@,
        decreases n - m + 1 - i,
    {
        let mut j: usize = 0;
        let mut same = true;
        while j < m
            invariant
                n == hay@.len(),
                m == needle@.len(),
                i + m <= n,
                j <= m,
                same == (forall|k: int| 0 <= k < j ==> hay@[i + k] == needle@[k]),
            decreases m - j,
        {
            if hay.get_char(i + j) != needle.get_char(j) {
                same = false;
            }
            j = j + 1;
        }
        if same {
            assert(hay@.subrange(i as int, i + m) =~= needle@);
            return true;
        }
        proof {
            let k = choose|k: int| 0 <= k < m && hay@[i + k] != needle@[k];
            assert(hay@.subrange(i as int, i + m)[k] != needle@[k]);
        }
        i = i + 1;
    }
    false
}

impl RuntimeType {
    /// The code under which a runtime type is remembered.
    pub fn code(self) -> (r: u32)
        ensures
            r == (match self {
                RuntimeType::Basic => RUNTIME_TYPE_BASIC,
                RuntimeType::ThreadPool => RUNTIME_TYPE_THREADPOOL,
            }),
    {
        match self {
            RuntimeType::Basic => RUNTIME_TYPE_BASIC,
            RuntimeType::ThreadPool => RUNTIME_TYPE_THREADPOOL,
        }
    }

    /// The runtime type remembered under `code`, if any.
    pub fn from_code(code: u32) -> (r: Option<RuntimeType>)
        ensures
            r == (if code == RUNTIME_TYPE_BASIC {
                Some(RuntimeType::Basic)
            } else if code == RUNTIME_TYPE_THREADPOOL {
                Some(RuntimeType::ThreadPool)
            } else {
                None::<RuntimeType>
            }),
    {
        if code == RUNTIME_TYPE_BASIC {
            Some(RuntimeType::Basic)
        } else if code == RUNTIME_TYPE_THREADPOOL {
            Some(RuntimeType::ThreadPool)
        } else {
            None
        }
    }

    /// The runtime type: the one remembered under `cached` if that is set;
    /// else a thread pool exactly when the scheduler's description mentions
    /// one. Remembering the answer is the caller's part.
    pub fn get(cached: u32, description: &str) -> (r: RuntimeType)
        ensures
            cached == RUNTIME_TYPE_BASIC ==> r == RuntimeType::Basic,
            cached == RUNTIME_TYPE_THREADPOOL ==> r == RuntimeType::ThreadPool,
            cached != RUNTIME_TYPE_BASIC && cached != RUNTIME_TYPE_THREADPOOL ==> (r == RuntimeType::ThreadPool
                <==> occurs_in("ThreadPool"@, description@)),
    {
        match RuntimeType::from_code(cached) {
            Some(rt) => rt,
            None => if contains(description, "ThreadPool") {
                RuntimeType::ThreadPool
            } else {
                RuntimeType::Basic
            },
        }
    }
}

} // verus!
