use vstd::prelude::*;

verus! {

/// An interned handle for a name. Two tokens are equal exactly when their
/// underlying integers are equal.
#[derive(Clone, Copy, Debug, PartialEq, Eq, Structural)]
pub struct Token {
    pub id: u64,
}

impl Token {
    pub open spec fn null_spec() -> Token {
        Token { id: 0 }
    }

    /// The token that stands for no name.
    pub fn null() -> (r: Token)
        ensures
            r == Token::null_spec(),
    {
        Token { id: 0 }
    }

    pub fn is_null(&self) -> (r: bool)
        ensures
            r == (self.id == 0),
    {
        self.id == 0
    }
}

impl From<u64> for Token {
    fn from(id: u64) -> (r: Token) {
        Token { id }
    }
}

impl vstd::std_specs::convert::FromSpecImpl<u64> for Token {
    open spec fn obeys_from_spec() -> bool {
        true
    }

    open spec fn from_spec(v: u64) -> Token {
        Token { id: v }
    }
}

/// The interning service: it hands out one token per distinct name, and
/// turns a token back into its name. Token `k` (for `k >= 1`) stands for the
/// `k`-th name interned; token 0 stands for none.
pub struct Interner {
    names: Vec<String>,
}

impl Interner {
    /// The names interned so far, in order.
    pub closed spec fn names(&self) -> Seq<Seq<char>> {
        self.names@.map_values(|s: String| s@)
    }

    /// No name is interned twice.
    pub open spec fn wf(&self) -> bool {
        forall|i: int, j: int|
            0 <= i < j < self.names().len() ==> self.names()[i] != self.names()[j]
    }

    pub fn new() -> (r: Interner)
        ensures
            r.wf(),
            r.names() == Seq::<Seq<char>>::empty(),
    {
        let r = Interner { names: Vec::new() };
        assert(r.names() =~= Seq::<Seq<char>>::empty());
        r
    }

    pub fn len(&self) -> (r: usize)
        ensures
            r == self.names().len(),
    {
        self.names.len()
    }

    /// The token for `name`: the one it already has, or a new one.
    pub fn intern(&mut self, name: &str) -> (r: Token)
        requires
            old(self).wf(),
            old(self).names().len() < u64::MAX,
        ensures
            final(self).wf(),
            old(self).names().contains(name@) ==> final(self).names() == old(self).names(),
            !old(self).names().contains(name@) ==> final(self).names() == old(self).names().push(
                name@,
            ),
            1 <= r.id <= final(self).names().len(),
            final(self).names()[r.id - 1] == name@,
    {
        let n = self.names.len();
        let mut i: usize = 0;
        while i < n
            invariant
                *self == *old(self),
                self.wf(),
                n == self.names().len() == self.names@.len(),
                n < u64::MAX,
                i <= n,
                forall|j: int| 0 <= j < i ==> self.names()[j] != name@,
            decreases n - i,
        {
            let owned = name.to_owned();
            if self.names[i] == owned {
                assert(self.names()[i as int] == name@);
                return Token { id: (i as u64) + 1 };
            }
            i = i + 1;
        }
        let ghost before = self.names();
        self.names.push(name.to_owned());
        assert(self.names() =~= before.push(name@));
        proof {
            if before.contains(name@) {
                let k = choose|k: int| 0 <= k < before.len() && before[k] == name@;
                assert(self.names()[k] != name@);
            }
        }
        Token { id: (n as u64) + 1 }
    }

    /// The name that `t` stands for, if it stands for one.
    pub fn name(&self, t: Token) -> (r: Option<&str>)
        ensures
            r matches Some(s) ==> 1 <= t.id <= self.names().len() && s@ == self.names()[t.id - 1],
            r is None ==> !(1 <= t.id <= self.names().len()),
    {
        if t.id >= 1 && t.id - 1 < self.names.len() as u64 {
            Some(self.names[(t.id - 1) as usize].as_str())
        } else {
            None
        }
    }

    /// The token for the dotted path `a.b`, where `a` and `b` are the names
    /// of two interned tokens; `None` where either is not interned.
    pub fn join(&mut self, a: Token, b: Token) -> (r: Option<Token>)
        requires
            old(self).wf(),
            old(self).names().len() < u64::MAX,
        ensures
            final(self).wf(),
            r is None <==> !(1 <= a.id <= old(self).names().len()) || !(1 <= b.id
                <= old(self).names().len()),
            r is None ==> final(self).names() == old(self).names(),
            r matches Some(t) ==> {
                &&& 1 <= t.id <= final(self).names().len()
                &&& final(self).names()[t.id - 1] == old(self).names()[a.id - 1] + seq!['.']
                    + old(self).names()[b.id - 1]
                &&& old(self).names().is_prefix_of(final(self).names())
            },
    {
        let path = match (self.name(a), self.name(b)) {
            (Some(x), Some(y)) => {
                let mut p = x.to_owned();
                p.append(".");
                p.append(y);
                proof {
                    reveal_strlit(".");
                }
                p
            },
            _ => {
                return None;
            },
        };
        let ghost before = self.names();
        let t = self.intern(path.as_str());
        assert(before.is_prefix_of(self.names()));
        Some(t)
    }
}

} // verus!
