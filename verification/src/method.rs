//! HTTP request methods and the sets of them that routes accept.

use vstd::prelude::*;

verus! {

/// A standard HTTP request method.
#[derive(Clone, Copy, Debug, PartialEq, Eq, Structural)]
pub enum Method {
    Get,
    Post,
    Put,
    Delete,
    Patch,
    Head,
    Options,
    Connect,
    Trace,
}

/// Every method, in the order in which method lists are written out.
pub open spec fn all_methods() -> Seq<Method> {
    seq![
        Method::Get,
        Method::Post,
        Method::Put,
        Method::Delete,
        Method::Patch,
        Method::Head,
        Method::Options,
        Method::Connect,
        Method::Trace,
    ]
}

impl Method {
    /// Position of the method in `all_methods()`.
    pub open spec fn rank(self) -> int {
        match self {
            Method::Get => 0,
            Method::Post => 1,
            Method::Put => 2,
            Method::Delete => 3,
            Method::Patch => 4,
            Method::Head => 5,
            Method::Options => 6,
            Method::Connect => 7,
            Method::Trace => 8,
        }
    }

    /// The method's token as it appears on the wire.
    pub open spec fn token(self) -> Seq<char> {
        match self {
            Method::Get => "GET"@,
            Method::Post => "POST"@,
            Method::Put => "PUT"@,
            Method::Delete => "DELETE"@,
            Method::Patch => "PATCH"@,
            Method::Head => "HEAD"@,
            Method::Options => "OPTIONS"@,
            Method::Connect => "CONNECT"@,
            Method::Trace => "TRACE"@,
        }
    }

    /// The method's token as it appears on the wire.
    pub fn as_str(&self) -> (s: &'static str)
        ensures
            s@ == self.token(),
    {
        match self {
            Method::Get => "GET",
            Method::Post => "POST",
            Method::Put => "PUT",
            Method::Delete => "DELETE",
            Method::Patch => "PATCH",
            Method::Head => "HEAD",
            Method::Options => "OPTIONS",
            Method::Connect => "CONNECT",
            Method::Trace => "TRACE",
        }
    }

    /// All nine methods, in canonical order.
    pub fn all() -> (v: Vec<Method>)
        ensures
            v@ == all_methods(),
    {
        let v = vec![
            Method::Get,
            Method::Post,
            Method::Put,
            Method::Delete,
            Method::Patch,
            Method::Head,
            Method::Options,
            Method::Connect,
            Method::Trace,
        ];
        assert(v@ =~= all_methods());
        v
    }
}

/// Whether `m` occurs in `methods`.
pub fn contains_method(methods: &Vec<Method>, m: Method) -> (found: bool)
    ensures
        found == methods@.contains(m),
{
    let mut i: usize = 0;
    while i < methods.len()
        invariant
            i <= methods.len(),
            forall|k: int| 0 <= k < i ==> methods@[k] != m,
        decreases methods.len() - i,
    {
        if methods[i] == m {
            return true;
        }
        i += 1;
    }
    false
}

/// A set of methods.
#[derive(Clone, Copy, Debug, PartialEq, Eq, Structural)]
pub struct MethodSet {
    pub get: bool,
    pub post: bool,
    pub put: bool,
    pub delete: bool,
    pub patch: bool,
    pub head: bool,
    pub options: bool,
    pub connect: bool,
    pub trace: bool,
}

/// The methods of `all_methods()` before position `n` that `set` holds, in
/// that order.
pub open spec fn listed_upto(set: MethodSet, n: int) -> Seq<Method>
    decreases n,
{
    if n <= 0 {
        Seq::empty()
    } else if n <= 9 && set.has(all_methods()[n - 1]) {
        listed_upto(set, n - 1).push(all_methods()[n - 1])
    } else {
        listed_upto(set, n - 1)
    }
}

/// The tokens of `methods`, with a comma and a space between neighbours.
pub open spec fn joined_tokens(methods: Seq<Method>) -> Seq<char>
    decreases methods.len(),
{
    if methods.len() == 0 {
        Seq::empty()
    } else if methods.len() == 1 {
        methods[0].token()
    } else {
        joined_tokens(methods.drop_last()) + ", "@ + methods.last().token()
    }
}

impl MethodSet {
    /// Whether the set holds `m`.
    pub open spec fn has(self, m: Method) -> bool {
        match m {
            Method::Get => self.get,
            Method::Post => self.post,
            Method::Put => self.put,
            Method::Delete => self.delete,
            Method::Patch => self.patch,
            Method::Head => self.head,
            Method::Options => self.options,
            Method::Connect => self.connect,
            Method::Trace => self.trace,
        }
    }

    /// The set without any method.
    pub open spec fn spec_empty() -> MethodSet {
        MethodSet {
            get: false,
            post: false,
            put: false,
            delete: false,
            patch: false,
            head: false,
            options: false,
            connect: false,
            trace: false,
        }
    }

    /// The set with every method of `methods` added.
    pub open spec fn spec_with_all(self, methods: Seq<Method>) -> MethodSet {
        MethodSet {
            get: self.get || methods.contains(Method::Get),
            post: self.post || methods.contains(Method::Post),
            put: self.put || methods.contains(Method::Put),
            delete: self.delete || methods.contains(Method::Delete),
            patch: self.patch || methods.contains(Method::Patch),
            head: self.head || methods.contains(Method::Head),
            options: self.options || methods.contains(Method::Options),
            connect: self.connect || methods.contains(Method::Connect),
            trace: self.trace || methods.contains(Method::Trace),
        }
    }

    /// The methods of the set in canonical order.
    pub open spec fn listed(self) -> Seq<Method> {
        listed_upto(self, 9)
    }

    /// The set without any method.
    pub fn empty() -> (set: MethodSet)
        ensures
            set == MethodSet::spec_empty(),
            forall|m: Method| !set.has(m),
    {
        MethodSet {
            get: false,
            post: false,
            put: false,
            delete: false,
            patch: false,
            head: false,
            options: false,
            connect: false,
            trace: false,
        }
    }

    /// Whether the set holds `m`.
    pub fn contains(&self, m: Method) -> (b: bool)
        ensures
            b == self.has(m),
    {
        match m {
            Method::Get => self.get,
            Method::Post => self.post,
            Method::Put => self.put,
            Method::Delete => self.delete,
            Method::Patch => self.patch,
            Method::Head => self.head,
            Method::Options => self.options,
            Method::Connect => self.connect,
            Method::Trace => self.trace,
        }
    }

    /// The set with `m` added.
    pub fn with(self, m: Method) -> (set: MethodSet)
        ensures
            forall|other: Method| set.has(other) == (other == m || self.has(other)),
    {
        let mut set = self;
        match m {
            Method::Get => set.get = true,
            Method::Post => set.post = true,
            Method::Put => set.put = true,
            Method::Delete => set.delete = true,
            Method::Patch => set.patch = true,
            Method::Head => set.head = true,
            Method::Options => set.options = true,
            Method::Connect => set.connect = true,
            Method::Trace => set.trace = true,
        }
        set
    }

    /// The set with every method of `methods` added.
    pub fn with_all(self, methods: &Vec<Method>) -> (set: MethodSet)
        ensures
            set == self.spec_with_all(methods@),
            forall|m: Method| set.has(m) == (self.has(m) || methods@.contains(m)),
    {
        let mut set = self;
        let mut i: usize = 0;
        while i < methods.len()
            invariant
                i <= methods.len(),
                forall|m: Method|
                    set.has(m) == (self.has(m) || exists|k: int|
                        0 <= k < i && methods@[k] == m),
            decreases methods.len() - i,
        {
            let ghost before = set;
            set = set.with(methods[i]);
            assert forall|m: Method|
                set.has(m) == (self.has(m) || exists|k: int|
                    0 <= k < i + 1 && methods@[k] == m) by {
                if m == methods@[i as int] {
                } else if before.has(m) && !self.has(m) {
                    let k = choose|k: int| 0 <= k < i && methods@[k] == m;
                    assert(0 <= k < i + 1 && methods@[k] == m);
                }
            }
            i += 1;
        }
        assert forall|m: Method| set.has(m) == (self.has(m) || methods@.contains(m)) by {
            if methods@.contains(m) {
                let k = choose|k: int| 0 <= k < methods@.len() && methods@[k] == m;
                assert(0 <= k < i && methods@[k] == m);
            }
        }
        proof {
            let goal = self.spec_with_all(methods@);
            assert(set.has(Method::Get) == goal.has(Method::Get));
            assert(set.has(Method::Post) == goal.has(Method::Post));
            assert(set.has(Method::Put) == goal.has(Method::Put));
            assert(set.has(Method::Delete) == goal.has(Method::Delete));
            assert(set.has(Method::Patch) == goal.has(Method::Patch));
            assert(set.has(Method::Head) == goal.has(Method::Head));
            assert(set.has(Method::Options) == goal.has(Method::Options));
            assert(set.has(Method::Connect) == goal.has(Method::Connect));
            assert(set.has(Method::Trace) == goal.has(Method::Trace));
        }
        set
    }

    /// The methods of the set, in canonical order.
    pub fn methods(&self) -> (v: Vec<Method>)
        ensures
            v@ == self.listed(),
    {
        let all = Method::all();
        let mut v: Vec<Method> = Vec::new();
        let mut i: usize = 0;
        while i < all.len()
            invariant
                i <= all.len(),
                all@ == all_methods(),
                all@.len() == 9,
                v@ == listed_upto(*self, i as int),
            decreases all.len() - i,
        {
            if self.contains(all[i]) {
                v.push(all[i]);
            }
            i += 1;
        }
        v
    }

    /// The value of an `Allow` header that lists the set: the tokens of
    /// its methods in canonical order, separated by a comma and a space.
    pub fn allow_header(&self) -> (header: String)
        ensures
            header@ == joined_tokens(self.listed()),
    {
        let methods = self.methods();
        let mut header = String::new();
        let mut i: usize = 0;
        assert(methods@.take(0) =~= Seq::empty());
        while i < methods.len()
            invariant
                i <= methods.len(),
                header@ == joined_tokens(methods@.take(i as int)),
            decreases methods.len() - i,
        {
            let ghost before = header@;
            assert(methods@.take(i + 1).drop_last() =~= methods@.take(i as int));
            assert(methods@.take(i + 1).last() == methods@[i as int]);
            assert(methods@.take(i + 1)[0] == methods@[0]);
            if i > 0 {
                header.append(", ");
            }
            header.append(methods[i].as_str());
            proof {
                if i == 0 {
                    assert(before =~= Seq::empty());
                    assert(header@ =~= methods@[0].token());
                } else {
                    assert(header@ =~= before + ", "@ + methods@[i as int].token());
                }
            }
            i += 1;
        }
        assert(methods@.take(i as int) =~= methods@);
        header
    }
}

/// The canonical listing of a set holds exactly the methods of the set,
/// each once, in the order of `all_methods()`.
pub proof fn lemma_listed(set: MethodSet)
    ensures
        forall|m: Method| #[trigger] set.listed().contains(m) == set.has(m),
        set.listed().no_duplicates(),
        forall|i: int, j: int|
            0 <= i < j < set.listed().len() ==> set.listed()[i].rank() < set.listed()[j].rank(),
{
    lemma_listed_ascending(set, 9);
    assert forall|m: Method| #[trigger] set.listed().contains(m) == set.has(m) by {
        lemma_listed_member(set, 9, m);
    }
    let l = set.listed();
    assert forall|i: int, j: int| 0 <= i < l.len() && 0 <= j < l.len() && i != j implies l[i]
        != l[j] by {
        if i < j {
            assert(l[i].rank() < l[j].rank());
        } else {
            assert(l[j].rank() < l[i].rank());
        }
    }
}

proof fn lemma_listed_member(set: MethodSet, n: int, m: Method)
    requires
        0 <= n <= 9,
    ensures
        listed_upto(set, n).contains(m) == (set.has(m) && m.rank() < n),
    decreases n,
{
    if n > 0 {
        lemma_listed_member(set, n - 1, m);
        let before = listed_upto(set, n - 1);
        let cur = listed_upto(set, n);
        let x = all_methods()[n - 1];
        assert(x.rank() == n - 1);
        assert(0 <= m.rank() < 9 && all_methods()[m.rank()] == m);
        if set.has(x) {
            assert(cur == before.push(x));
            if cur.contains(m) {
                let k = choose|k: int| 0 <= k < cur.len() && cur[k] == m;
                if k < before.len() {
                    assert(before[k] == m);
                    assert(before.contains(m));
                }
            }
            if set.has(m) && m.rank() < n {
                if m.rank() < n - 1 {
                    assert(before.contains(m));
                    let k = choose|k: int| 0 <= k < before.len() && before[k] == m;
                    assert(cur[k] == m);
                } else {
                    assert(m == x);
                    assert(cur[cur.len() - 1] == m);
                }
            }
        } else {
            if m.rank() == n - 1 {
                assert(m == x);
            }
        }
    } else {
        assert(!listed_upto(set, n).contains(m));
    }
}

proof fn lemma_listed_ascending(set: MethodSet, n: int)
    requires
        0 <= n <= 9,
    ensures
        forall|i: int, j: int|
            0 <= i < j < listed_upto(set, n).len() ==> listed_upto(set, n)[i].rank()
                < listed_upto(set, n)[j].rank(),
    decreases n,
{
    if n > 0 {
        lemma_listed_ascending(set, n - 1);
        let before = listed_upto(set, n - 1);
        let cur = listed_upto(set, n);
        let x = all_methods()[n - 1];
        assert(x.rank() == n - 1);
        if set.has(x) {
            assert forall|i: int, j: int| 0 <= i < j < cur.len() implies cur[i].rank()
                < cur[j].rank() by {
                if j < before.len() {
                    assert(cur[i] == before[i] && cur[j] == before[j]);
                } else {
                    assert(cur[i] == before[i]);
                    assert(before.contains(before[i]));
                    lemma_listed_member(set, n - 1, before[i]);
                }
            }
        }
    }
}

} // verus!
