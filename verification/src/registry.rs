use vstd::prelude::*;
use vstd::string::StringExecFns;

use crate::errors::WolError;
use crate::mac::{format_mac, parse_spec, unparse_mac, MacAddress};

verus! {

/// One registry entry: a friendly device name bound to its hardware address.
#[derive(Debug)]
pub struct DeviceEntry {
    pub name: String,
    pub mac: MacAddress,
}

/// Whether no two entries share a name.
pub open spec fn names_unique(s: Seq<DeviceEntry>) -> bool {
    forall|i: int, j: int| 0 <= i < j < s.len() ==> s[i].name@ != s[j].name@
}

/// Whether some entry carries the name `n`.
pub open spec fn has_name(s: Seq<DeviceEntry>, n: Seq<char>) -> bool {
    exists|i: int| 0 <= i < s.len() && s[i].name@ == n
}

/// An index of the entry named `n`, when one exists.
pub open spec fn index_of_name(s: Seq<DeviceEntry>, n: Seq<char>) -> int {
    choose|i: int| 0 <= i < s.len() && s[i].name@ == n
}

/// The mathematical content of an entry sequence: the name-to-MAC map.
pub open spec fn entries_map(s: Seq<DeviceEntry>) -> Map<Seq<char>, MacAddress> {
    Map::new(|n: Seq<char>| has_name(s, n), |n: Seq<char>| s[index_of_name(s, n)].mac)
}

/// With unique names, the chosen index of a present name is the only one.
proof fn lemma_index_of_name(s: Seq<DeviceEntry>, n: Seq<char>)
    requires
        names_unique(s),
        has_name(s, n),
    ensures
        0 <= index_of_name(s, n) < s.len(),
        s[index_of_name(s, n)].name@ == n,
        forall|i: int| 0 <= i < s.len() && s[i].name@ == n ==> i == index_of_name(s, n),
{
    let k = index_of_name(s, n);
    assert(0 <= k < s.len() && s[k].name@ == n);
    assert forall|i: int| 0 <= i < s.len() && s[i].name@ == n implies i == k by {
        if i < k {
            assert(s[i].name@ != s[k].name@);
        } else if k < i {
            assert(s[k].name@ != s[i].name@);
        }
    }
}

/// Appending an entry under a fresh name inserts it into the map.
proof fn lemma_push_entry(s: Seq<DeviceEntry>, e: DeviceEntry)
    requires
        names_unique(s),
        !has_name(s, e.name@),
    ensures
        names_unique(s.push(e)),
        entries_map(s.push(e)) == entries_map(s).insert(e.name@, e.mac),
{
    let t = s.push(e);
    assert forall|i: int, j: int| 0 <= i < j < t.len() implies t[i].name@ != t[j].name@ by {
        if j < s.len() {
            assert(s[i].name@ != s[j].name@);
        } else {
            assert(t[j] == e);
            assert(t[i] == s[i]);
            assert(!(0 <= i < s.len() && s[i].name@ == e.name@));
        }
    }
    assert forall|n: Seq<char>| true implies #[trigger] has_name(t, n) == (has_name(s, n) || n
        == e.name@) by {
        if has_name(t, n) {
            let w = choose|i: int| 0 <= i < t.len() && t[i].name@ == n;
            if w < s.len() {
                assert(s[w].name@ == n);
            } else {
                assert(t[w] == e);
            }
        }
        if has_name(s, n) {
            let w = choose|i: int| 0 <= i < s.len() && s[i].name@ == n;
            assert(t[w].name@ == n);
        }
        if n == e.name@ {
            assert(t[s.len() as int].name@ == n);
        }
    }
    assert forall|n: Seq<char>| has_name(t, n) implies t[index_of_name(t, n)].mac == (if n
        == e.name@ {
        e.mac
    } else {
        s[index_of_name(s, n)].mac
    }) by {
        lemma_index_of_name(t, n);
        let k = index_of_name(t, n);
        if n == e.name@ {
            if k < s.len() {
                assert(s[k].name@ == n);
            }
            assert(k == s.len() as int);
        } else {
            assert(t[s.len() as int].name@ == e.name@);
            assert(k < s.len());
            assert(s[k].name@ == n);
            lemma_index_of_name(s, n);
        }
    }
    assert(entries_map(t) =~= entries_map(s).insert(e.name@, e.mac));
}

/// Replacing the entry at `i` by one with the same name re-binds that name.
proof fn lemma_update_entry(s: Seq<DeviceEntry>, i: int, e: DeviceEntry)
    requires
        names_unique(s),
        0 <= i < s.len(),
        s[i].name@ == e.name@,
    ensures
        names_unique(s.update(i, e)),
        entries_map(s.update(i, e)) == entries_map(s).insert(e.name@, e.mac),
{
    let t = s.update(i, e);
    assert forall|j: int| 0 <= j < t.len() implies #[trigger] t[j].name@ == s[j].name@ by {}
    assert forall|p: int, q: int| 0 <= p < q < t.len() implies t[p].name@ != t[q].name@ by {
        assert(s[p].name@ != s[q].name@);
    }
    assert forall|n: Seq<char>| true implies #[trigger] has_name(t, n) == has_name(s, n) by {
        if has_name(t, n) {
            let w = choose|k: int| 0 <= k < t.len() && t[k].name@ == n;
            assert(s[w].name@ == n);
        }
        if has_name(s, n) {
            let w = choose|k: int| 0 <= k < s.len() && s[k].name@ == n;
            assert(t[w].name@ == n);
        }
    }
    assert forall|n: Seq<char>| has_name(t, n) implies t[index_of_name(t, n)].mac == (if n
        == e.name@ {
        e.mac
    } else {
        s[index_of_name(s, n)].mac
    }) by {
        lemma_index_of_name(t, n);
        lemma_index_of_name(s, n);
        let k = index_of_name(t, n);
        assert(s[k].name@ == n);
        if n == e.name@ {
            assert(k == i);
        } else {
            assert(k != i);
            assert(k == index_of_name(s, n));
        }
    }
    assert(entries_map(t) =~= entries_map(s).insert(e.name@, e.mac));
}

/// Removing the entry at `i` removes exactly its name from the map.
proof fn lemma_remove_entry(s: Seq<DeviceEntry>, i: int)
    requires
        names_unique(s),
        0 <= i < s.len(),
    ensures
        names_unique(s.remove(i)),
        entries_map(s.remove(i)) == entries_map(s).remove(s[i].name@),
{
    let t = s.remove(i);
    s.remove_ensures(i);
    let n0 = s[i].name@;
    assert forall|j: int| 0 <= j < t.len() implies #[trigger] t[j].name@ == (if j < i {
        s[j].name@
    } else {
        s[j + 1].name@
    }) by {}
    assert forall|p: int, q: int| 0 <= p < q < t.len() implies t[p].name@ != t[q].name@ by {
        let sp = if p < i {
            p
        } else {
            p + 1
        };
        let sq = if q < i {
            q
        } else {
            q + 1
        };
        assert(s[sp].name@ != s[sq].name@);
    }
    assert forall|n: Seq<char>| true implies #[trigger] has_name(t, n) == (has_name(s, n) && n
        != n0) by {
        if has_name(t, n) {
            let w = choose|k: int| 0 <= k < t.len() && t[k].name@ == n;
            let sw = if w < i {
                w
            } else {
                w + 1
            };
            assert(s[sw].name@ == n);
            if n == n0 {
                assert(s[sw].name@ == s[i].name@ && sw != i);
                if sw < i {
                    assert(s[sw].name@ != s[i].name@);
                } else {
                    assert(s[i].name@ != s[sw].name@);
                }
            }
        }
        if has_name(s, n) && n != n0 {
            let w = choose|k: int| 0 <= k < s.len() && s[k].name@ == n;
            assert(w != i);
            if w < i {
                assert(t[w].name@ == n);
            } else {
                assert(t[w - 1].name@ == n);
            }
        }
    }
    assert forall|n: Seq<char>| has_name(t, n) implies t[index_of_name(t, n)].mac
        == s[index_of_name(s, n)].mac by {
        lemma_index_of_name(t, n);
        lemma_index_of_name(s, n);
        let k = index_of_name(t, n);
        let sk = if k < i {
            k
        } else {
            k + 1
        };
        assert(s[sk].name@ == n);
        assert(t[k].mac == s[sk].mac);
        assert(sk == index_of_name(s, n));
    }
    assert(entries_map(t) =~= entries_map(s).remove(n0));
}

/// The whole persisted unit: the bot's authentication token, carried along
/// opaquely, and the registered computers.
#[derive(Debug)]
pub struct Config {
    pub telegram_token: String,
    pub computers: Vec<DeviceEntry>,
}

/// The index of the entry of `computers` named `name`, if any.
fn find_name(computers: &Vec<DeviceEntry>, name: &String) -> (r: Option<usize>)
    ensures
        match r {
            Some(i) => i < computers@.len() && computers@[i as int].name@ == name@,
            None => !has_name(computers@, name@),
        },
{
    let n = computers.len();
    let mut i: usize = 0;
    while i < n
        invariant
            n == computers@.len(),
            i <= n,
            forall|j: int| 0 <= j < i ==> computers@[j].name@ != name@,
        decreases n - i,
    {
        if computers[i].name == *name {
            return Some(i);
        }
        i = i + 1;
    }
    None
}

impl Config {
    /// The registry's invariant: entry names are unique.
    pub open spec fn wf(&self) -> bool {
        names_unique(self.computers@)
    }

    /// The registry content as a map from name to hardware address.
    pub open spec fn computers_map(&self) -> Map<Seq<char>, MacAddress> {
        entries_map(self.computers@)
    }

    /// Inserts or overwrites the entry for `name`: re-adding an existing name
    /// silently replaces its address (last write wins), never an error.
    pub fn add_computer(&mut self, name: String, mac: MacAddress)
        requires
            old(self).wf(),
        ensures
            final(self).wf(),
            final(self).telegram_token == old(self).telegram_token,
            final(self).computers_map() == old(self).computers_map().insert(name@, mac),
    {
        let ghost s0 = self.computers@;
        match find_name(&self.computers, &name) {
            Some(i) => {
                let mut entry = self.computers.remove(i);
                entry.mac = mac;
                let ghost e = entry;
                self.computers.insert(i, entry);
                proof {
                    assert(self.computers@ =~= s0.update(i as int, e));
                    lemma_update_entry(s0, i as int, e);
                    assert(entries_map(s0).insert(e.name@, e.mac) =~= entries_map(s0).insert(
                        name@,
                        mac,
                    ));
                }
            },
            None => {
                let entry = DeviceEntry { name, mac };
                let ghost e = entry;
                self.computers.push(entry);
                proof {
                    lemma_push_entry(s0, e);
                }
            },
        }
    }

    /// Deletes the entry for `name`; fails with `NotFound`, leaving the
    /// registry unchanged, exactly when no entry carries that name.
    pub fn remove_computer(&mut self, name: &str) -> (r: Result<(), WolError>)
        requires
            old(self).wf(),
        ensures
            final(self).wf(),
            final(self).telegram_token == old(self).telegram_token,
            match r {
                Ok(()) => old(self).computers_map().contains_key(name@)
                    && final(self).computers_map() == old(self).computers_map().remove(name@),
                Err(e) => e == WolError::NotFound && !old(self).computers_map().contains_key(name@)
                    && *final(self) == *old(self),
            },
    {
        let key = name.to_owned();
        let ghost s0 = self.computers@;
        match find_name(&self.computers, &key) {
            Some(i) => {
                self.computers.remove(i);
                proof {
                    lemma_index_of_name(s0, name@);
                    lemma_remove_entry(s0, i as int);
                }
                Ok(())
            },
            None => Err(WolError::NotFound),
        }
    }

    /// Looks `name` up in the registry.
    pub fn get_computer(&self, name: &str) -> (r: Option<MacAddress>)
        requires
            self.wf(),
        ensures
            match r {
                Some(mac) => self.computers_map().contains_key(name@) && mac
                    == self.computers_map()[name@],
                None => !self.computers_map().contains_key(name@),
            },
    {
        let key = name.to_owned();
        match find_name(&self.computers, &key) {
            Some(i) => {
                proof {
                    lemma_index_of_name(self.computers@, name@);
                }
                Some(self.computers[i].mac)
            },
            None => None,
        }
    }

    /// Resolves a wake target: a well-formed literal MAC always wins, whatever
    /// the registry holds; only when literal parsing fails is `name_or_mac`
    /// looked up as a registered name, and `DeviceNotFound` reported when that
    /// also fails.
    pub fn resolve(&self, name_or_mac: &str) -> (r: Result<MacAddress, WolError>)
        requires
            self.wf(),
        ensures
            match r {
                Ok(mac) => resolve_spec(self, name_or_mac@) == Ok::<Seq<u8>, WolError>(mac@),
                Err(e) => resolve_spec(self, name_or_mac@) == Err::<Seq<u8>, WolError>(e),
            },
    {
        match crate::mac::parse_mac(name_or_mac) {
            Ok(mac) => Ok(mac),
            Err(_) => match self.get_computer(name_or_mac) {
                Some(mac) => Ok(mac),
                None => Err(WolError::DeviceNotFound),
            },
        }
    }

    /// Renders one line per entry, `name => MAC`, in registry order; an empty
    /// registry renders the hint to add one.
    pub fn list_computers(&self) -> (r: String)
        ensures
            self.computers@.len() == 0 ==> r@ == "No computers, add them using `/add <computer> <MAC>`"@,
            self.computers@.len() > 0 ==> r@ == render_entries(self.computers@),
    {
        if self.computers.len() == 0 {
            return String::from_str("No computers, add them using `/add <computer> <MAC>`");
        }
        let mut out = String::new();
        let mut i: usize = 0;
        while i < self.computers.len()
            invariant
                i <= self.computers@.len(),
                out@ =~= render_entries(self.computers@.subrange(0, i as int)),
            decreases self.computers@.len() - i,
        {
            out.append(self.computers[i].name.as_str());
            out.append(" => ");
            let mac_text = unparse_mac(&self.computers[i].mac);
            out.append(mac_text.as_str());
            out.append("\n");
            proof {
                let s = self.computers@;
                let t = s.subrange(0, i as int + 1);
                assert(t.drop_last() =~= s.subrange(0, i as int));
                assert(t.last() == s[i as int]);
                assert(out@ =~= render_entries(t));
            }
            i = i + 1;
        }
        proof {
            assert(self.computers@.subrange(0, self.computers@.len() as int) =~= self.computers@);
        }
        out
    }
}

/// What resolving a wake target against the registry `c` yields: the bytes of
/// the literal MAC when the argument parses, else the bytes registered under
/// that name, else `DeviceNotFound`.
pub open spec fn resolve_spec(c: &Config, s: Seq<char>) -> Result<Seq<u8>, WolError> {
    match parse_spec(s) {
        Ok(b) => Ok(b),
        Err(_) => if c.computers_map().contains_key(s) {
            Ok(c.computers_map()[s]@)
        } else {
            Err(WolError::DeviceNotFound)
        },
    }
}

/// The listing text for the entries `s`: one `name => MAC` line per entry.
pub open spec fn render_entries(s: Seq<DeviceEntry>) -> Seq<char>
    decreases s.len(),
{
    if s.len() == 0 {
        Seq::empty()
    } else {
        render_entries(s.drop_last()) + s.last().name@ + " => "@ + format_mac(s.last().mac@)
            + "\n"@
    }
}

} // verus!
