use vstd::prelude::*;

verus! {

/// Two characters are equal once ASCII upper case is folded to lower case.
pub open spec fn same_ascii_fold(a: char, b: char) -> bool {
    a == b || ('A' <= a && a <= 'Z' && b as u32 == a as u32 + 32) || ('A' <= b && b <= 'Z'
        && a as u32 == b as u32 + 32)
}

/// Two header names are the same, ASCII case aside.
pub open spec fn names_match(a: Seq<char>, b: Seq<char>) -> bool {
    a.len() == b.len() && forall|i: int| 0 <= i < a.len() ==> #[trigger] same_ascii_fold(a[i], b[i])
}

/// Whether `a` and `b` name the same header, ASCII case aside.
pub fn header_names_match(a: &str, b: &str) -> (r: bool)
    ensures
        r == names_match(a@, b@),
{
    let n = a.unicode_len();
    if n != b.unicode_len() {
        return false;
    }
    let mut i: usize = 0;
    while i < n
        invariant
            n == a@.len(),
            n == b@.len(),
            i <= n,
            forall|j: int| 0 <= j < i ==> #[trigger] same_ascii_fold(a@[j], b@[j]),
        decreases n - i,
    {
        let x = a.get_char(i);
        let y = b.get_char(i);
        let same = x == y || ('A' <= x && x <= 'Z' && y as u32 == x as u32 + 32) || ('A' <= y
            && y <= 'Z' && x as u32 == y as u32 + 32);
        if !same {
            assert(!same_ascii_fold(a@[i as int], b@[i as int]));
            return false;
        }
        i = i + 1;
    }
    true
}

/// The value of the first header whose name is `name`, ASCII case aside.
pub open spec fn header_value(headers: Seq<(String, String)>, name: Seq<char>) -> Option<Seq<char>>
    decreases headers.len(),
{
    if headers.len() == 0 {
        None
    } else if names_match(headers[0].0@, name) {
        Some(headers[0].1@)
    } else {
        header_value(headers.drop_first(), name)
    }
}

/// What the checkers may read of one incoming request.
///
/// Header names are matched ignoring ASCII case, as HTTP asks.
pub struct CheckerData {
    pub headers: Vec<(String, String)>,
    pub source_address: String,
    pub requested_amount: Option<u64>,
    pub time_request_received_secs: u64,
}

impl CheckerData {
    /// The value of the first header whose name is `name`, ASCII case aside.
    pub fn header(&self, name: &str) -> (r: Option<&String>)
        ensures
            match r {
                Some(v) => header_value(self.headers@, name@) == Some(v@),
                None => header_value(self.headers@, name@).is_none(),
            },
    {
        let n = self.headers.len();
        let mut i: usize = 0;
        assert(self.headers@.subrange(0, n as int) =~= self.headers@);
        while i < n
            invariant
                n == self.headers@.len(),
                i <= n,
                header_value(self.headers@, name@) == header_value(
                    self.headers@.subrange(i as int, n as int),
                    name@,
                ),
            decreases n - i,
        {
            proof {
                let rest = self.headers@.subrange(i as int, n as int);
                assert(rest.drop_first() =~= self.headers@.subrange(i + 1, n as int));
                assert(rest[0] == self.headers@[i as int]);
            }
            if header_names_match(self.headers[i].0.as_str(), name) {
                return Some(&self.headers[i].1);
            }
            i = i + 1;
        }
        None
    }
}

} // verus!
