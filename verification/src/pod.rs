//! Pods as the dashboard lists them.

use crate::util::{decimal, to_decimal};
use vstd::prelude::*;

verus! {

/// How long something has been there, for showing: the time in the
/// largest of days, hours, minutes and seconds of which it holds one at
/// least, as a whole number with the first letter of the unit behind it.
pub open spec fn age_text(seconds: u64) -> Seq<char> {
    if seconds >= 86400 {
        decimal((seconds / 86400) as nat) + "d"@
    } else if seconds >= 3600 {
        decimal((seconds / 3600) as nat) + "h"@
    } else if seconds >= 60 {
        decimal((seconds / 60) as nat) + "m"@
    } else {
        decimal(seconds as nat) + "s"@
    }
}

/// How long something has been there after `seconds`, for showing.
pub fn age(seconds: u64) -> (r: String)
    ensures
        r@ == age_text(seconds),
{
    if seconds >= 86400 {
        let mut out: String = to_decimal(seconds / 86400);
        out.append("d");
        out
    } else if seconds >= 3600 {
        let mut out: String = to_decimal(seconds / 3600);
        out.append("h");
        out
    } else if seconds >= 60 {
        let mut out: String = to_decimal(seconds / 60);
        out.append("m");
        out
    } else {
        let mut out: String = to_decimal(seconds);
        out.append("s");
        out
    }
}

/// What is listed of a pod.
pub struct PodInfo {
    name: String,
    phase: String,
    age: String,
}

/// `n` spaces.
pub open spec fn spaces(n: nat) -> Seq<char> {
    Seq::new(n, |i: int| ' ')
}

/// `s` filled up with spaces to `width` characters; `s` itself where it
/// is that long or longer.
pub open spec fn padded(s: Seq<char>, width: nat) -> Seq<char> {
    if s.len() >= width {
        s
    } else {
        s + spaces((width - s.len()) as nat)
    }
}

/// The line of a pod in a list whose column of names is `width` wide: the
/// name filled up to `width + 4`, a space, the phase, four spaces, the age.
pub open spec fn pod_line(name: Seq<char>, phase: Seq<char>, age: Seq<char>, width: nat) -> Seq<
    char,
> {
    padded(name, width + 4) + seq![' '] + phase + seq![' ', ' ', ' ', ' '] + age
}

/// The greatest length among the first `upto` of `names`.
pub open spec fn longest(names: Seq<Seq<char>>, upto: int) -> nat
    decreases upto,
{
    if upto <= 0 {
        0
    } else if names[upto - 1].len() > longest(names, upto - 1) {
        names[upto - 1].len()
    } else {
        longest(names, upto - 1)
    }
}

impl PodInfo {
    pub closed spec fn name(&self) -> Seq<char> {
        self.name@
    }

    pub closed spec fn phase(&self) -> Seq<char> {
        self.phase@
    }

    pub closed spec fn age(&self) -> Seq<char> {
        self.age@
    }

    pub fn new(name: String, phase: String, age: String) -> (r: PodInfo)
        ensures
            r.name() == name@,
            r.phase() == phase@,
            r.age() == age@,
    {
        PodInfo { name, phase, age }
    }

    /// How many characters the name has.
    pub fn name_len(&self) -> (r: usize)
        ensures
            r == self.name().len(),
    {
        self.name.as_str().unicode_len()
    }

    /// The line of the pod in a list whose column of names is `width`
    /// wide.
    pub fn to_string(&self, width: usize) -> (r: String)
        requires
            width <= usize::MAX - 4,
        ensures
            r@ == pod_line(self.name(), self.phase(), self.age(), width as nat),
    {
        let mut out: String = self.name.clone();
        let len: usize = self.name.as_str().unicode_len();
        let mut i: usize = len;
        while i < width + 4
            invariant
                len <= i,
                width <= usize::MAX - 4,
                len == self.name@.len(),
                i > len ==> i <= width + 4,
                out@ == self.name@ + spaces((i - len) as nat),
            decreases width + 4 - i,
        {
            proof {
                reveal_strlit(" ");
                assert(" "@ =~= seq![' ']);
                assert(spaces((i - len) as nat) + seq![' '] =~= spaces((i + 1 - len) as nat));
                assert((self.name@ + spaces((i - len) as nat)) + seq![' '] =~= self.name@ + (
                spaces((i - len) as nat) + seq![' ']));
            }
            out.append(" ");
            i += 1;
        }
        proof {
            reveal_strlit(" ");
            reveal_strlit("    ");
            assert(" "@ =~= seq![' ']);
            assert("    "@ =~= seq![' ', ' ', ' ', ' ']);
            assert(self.name@ + spaces(0) =~= self.name@);
            assert(out@ =~= padded(self.name@, (width + 4) as nat));
        }
        out.append(" ");
        out.append(self.phase.as_str());
        out.append("    ");
        out.append(self.age.as_str());
        out
    }
}

/// The names of `pods`.
pub open spec fn names_of(pods: Seq<PodInfo>) -> Seq<Seq<char>> {
    Seq::new(pods.len(), |i: int| pods[i].name())
}

/// The lines of `pods`, with the column of names as wide as the longest
/// name.
pub fn pod_lines(pods: &Vec<PodInfo>) -> (r: Option<Vec<String>>)
    ensures
        match r {
            Some(lines) => {
                &&& lines@.len() == pods@.len()
                &&& forall|i: int|
                    0 <= i < pods@.len() ==> (#[trigger] lines@[i])@ == pod_line(
                        pods@[i].name(),
                        pods@[i].phase(),
                        pods@[i].age(),
                        longest(names_of(pods@), pods@.len() as int),
                    )
            },
            None => longest(names_of(pods@), pods@.len() as int) > usize::MAX - 4,
        },
{
    let mut width: usize = 0;
    let mut i: usize = 0;
    while i < pods.len()
        invariant
            i <= pods.len(),
            width == longest(names_of(pods@), i as int),
        decreases pods.len() - i,
    {
        let len: usize = pods[i].name_len();
        assert(names_of(pods@)[i as int] == pods@[i as int].name());
        if len > width {
            width = len;
        }
        i += 1;
    }
    if width > usize::MAX - 4 {
        return None;
    }
    let mut lines: Vec<String> = Vec::new();
    let mut k: usize = 0;
    while k < pods.len()
        invariant
            k <= pods.len(),
            width <= usize::MAX - 4,
            lines@.len() == k,
            forall|j: int|
                0 <= j < k ==> (#[trigger] lines@[j])@ == pod_line(
                    pods@[j].name(),
                    pods@[j].phase(),
                    pods@[j].age(),
                    width as nat,
                ),
        decreases pods.len() - k,
    {
        lines.push(pods[k].to_string(width));
        k += 1;
    }
    Some(lines)
}

} // verus!
