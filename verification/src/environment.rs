use vstd::prelude::*;
use crate::error::{ErrorKind, ErrorView, LoxError};
use crate::token::Token;
use crate::values::{Value, ValueView};

verus! {

// The variable store: one flat scope mapping names to values.  It is kept
// as a journal of bindings where the newest binding for a name wins, so
// every operation is, to its callers, exactly a map update or lookup.

/// The map a binding journal denotes: later entries shadow earlier ones.
pub open spec fn spec_bindings_map(entries: Seq<(String, Value)>) -> Map<Seq<char>, ValueView>
    decreases entries.len(),
{
    if entries.len() == 0 {
        Map::empty()
    } else {
        spec_bindings_map(entries.drop_last()).insert(
            entries.last().0@,
            entries.last().1@,
        )
    }
}

/// A name to value store with one flat scope.
pub struct Environment {
    values: Vec<(String, Value)>,
}

impl View for Environment {
    type V = Map<Seq<char>, ValueView>;

    closed spec fn view(&self) -> Map<Seq<char>, ValueView> {
        spec_bindings_map(self.values@)
    }
}

impl Environment {
    /// An empty store.
    pub fn new() -> (e: Environment)
        ensures
            e@ == Map::<Seq<char>, ValueView>::empty(),
    {
        let e = Environment { values: Vec::new() };
        proof {
            assert(e.values@.len() == 0);
        }
        e
    }

    /// Binds `name` to `value`, overwriting any earlier binding: a
    /// redeclaration is legal and silently shadows the prior value.
    pub fn define(&mut self, name: String, value: Value)
        ensures
            final(self)@ == old(self)@.insert(name@, value@),
    {
        let ghost entries0 = self.values@;
        self.values.push((name, value));
        proof {
            assert(self.values@.drop_last() =~= entries0);
        }
    }

    /// The value bound at `name` among the first `n` entries, newest first.
    fn lookup(&self, n: usize, name: &str) -> (r: Option<Value>)
        requires
            n <= self.values@.len(),
        ensures
            match r {
                Some(v) => spec_bindings_map(self.values@.take(n as int)).contains_key(name@)
                    && spec_bindings_map(self.values@.take(n as int))[name@] == v@,
                None => !spec_bindings_map(self.values@.take(n as int)).contains_key(name@),
            },
        decreases n,
    {
        if n == 0 {
            proof {
                assert(self.values@.take(0) =~= Seq::<(String, Value)>::empty());
            }
            return None;
        }
        let entry = &self.values[n - 1];
        proof {
            assert(self.values@.take(n as int).drop_last() =~= self.values@.take(n - 1));
            assert(self.values@.take(n as int).last() == self.values@[n - 1]);
        }
        if entry.0 == name.to_owned() {
            Some(entry.1.duplicate())
        } else {
            self.lookup(n - 1, name)
        }
    }

    /// The value bound to the token's name, or a runtime error naming the
    /// undefined variable, anchored at the token's line.
    pub fn get(&self, name: &Token) -> (r: Result<Value, LoxError>)
        ensures
            match r {
                Ok(v) => self@.contains_key(name@.lexeme) && self@[name@.lexeme] == v@,
                Err(e) => !self@.contains_key(name@.lexeme) && e@ == (ErrorView {
                    line: name@.line,
                    message: "Undefined Variable "@ + name@.lexeme,
                    kind: ErrorKind::Runtime,
                }),
            },
    {
        let n = self.values.len();
        proof {
            assert(self.values@.take(n as int) =~= self.values@);
        }
        match self.lookup(n, self.name_str(name)) {
            Some(v) => Ok(v),
            None => {
                let mut msg = String::new();
                msg.append("Undefined Variable ");
                msg.append(name.lexeme.as_str());
                Err(LoxError::runtime(name.duplicate(), msg))
            },
        }
    }

    fn name_str<'a>(&self, name: &'a Token) -> (r: &'a str)
        ensures
            r@ == name@.lexeme,
    {
        name.lexeme.as_str()
    }

    /// Rebinds an existing name, or fails with `invalid assignment target`
    /// where the name was never bound.
    pub fn assign(&mut self, left: Token, right: &Value) -> (r: Result<(), LoxError>)
        ensures
            match r {
                Ok(_) => old(self)@.contains_key(left@.lexeme) && final(self)@ == old(
                    self,
                )@.insert(left@.lexeme, right@),
                Err(e) => !old(self)@.contains_key(left@.lexeme) && final(self)@ == old(self)@
                    && e@ == (ErrorView {
                    line: left@.line,
                    message: "invalid assignment target"@,
                    kind: ErrorKind::Runtime,
                }),
            },
    {
        let n = self.values.len();
        proof {
            assert(self.values@.take(n as int) =~= self.values@);
        }
        match self.lookup(n, left.lexeme.as_str()) {
            Some(_) => {
                let ghost entries0 = self.values@;
                let name = left.lexeme.clone();
                self.values.push((name, right.duplicate()));
                proof {
                    assert(self.values@.drop_last() =~= entries0);
                }
                Ok(())
            },
            None => {
                let mut msg = String::new();
                msg.append("invalid assignment target");
                Err(LoxError::runtime(left, msg))
            },
        }
    }
}

} // verus!
