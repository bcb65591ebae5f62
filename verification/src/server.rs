//! The map of configured servers: server names ordered
//! lexicographically, each carrying its configuration and the bouncer
//! networks attached to it, and the listing of entries the rest of the
//! client displays.
use vstd::prelude::*;

use crate::bouncer::BouncerNetwork;
use crate::config::PasswordTarget;
use crate::config::ServerConfig;
use crate::strutil::lemma_str_lt_connex;
use crate::strutil::lemma_str_lt_irrefl;
use crate::strutil::lemma_str_lt_trans;
use crate::strutil::str_eq;
use crate::strutil::str_lt;
use crate::strutil::str_lt_str;

verus! {

/// The name of a configured server.
#[derive(Debug, Hash)]
pub struct Server(String);

impl View for Server {
    type V = Seq<char>;

    closed spec fn view(&self) -> Seq<char> {
        self.0@
    }
}

impl Clone for Server {
    fn clone(&self) -> (r: Self)
        ensures
            r == *self,
    {
        Server(self.0.clone())
    }
}

impl PartialEq for Server {
    fn eq(&self, other: &Server) -> (r: bool) {
        str_eq(self.0.as_str(), other.0.as_str())
    }
}

impl vstd::std_specs::cmp::PartialEqSpecImpl for Server {
    open spec fn obeys_eq_spec() -> bool {
        true
    }

    open spec fn eq_spec(&self, other: &Server) -> bool {
        self@ == other@
    }
}

impl Eq for Server {

}

impl Server {
    /// A server name from its text.
    pub fn from(value: &str) -> (r: Server)
        ensures
            r@ == value@,
    {
        Server(value.to_owned())
    }

    /// The text of this server name.
    pub fn as_str(&self) -> (r: &str)
        ensures
            r@ == self@,
    {
        self.0.as_str()
    }
}

/// One row of the server listing: a server, its configuration, and —
/// for a row standing for a bouncer network — that network.
#[derive(Debug)]
pub struct Entry {
    pub server: Server,
    pub config: ServerConfig,
    pub bouncer_network: Option<BouncerNetwork>,
}

impl Clone for Entry {
    fn clone(&self) -> (r: Self)
        ensures
            r == *self,
    {
        Entry {
            server: self.server.clone(),
            config: self.config.clone(),
            bouncer_network: match &self.bouncer_network {
                Some(b) => Some(b.clone()),
                None => None,
            },
        }
    }
}

/// What the map stores for one server.
#[derive(Debug)]
struct MapVal {
    config: ServerConfig,
    children: Vec<BouncerNetwork>,
}

/// The map from server names to their configuration and attached
/// bouncer networks, kept sorted by name with each name occurring
/// once.
#[derive(Debug)]
pub struct ServerMap {
    entries: Vec<(Server, MapVal)>,
}

/// The value stored under the first entry with the given key.
spec fn entries_get(es: Seq<(Server, MapVal)>, k: Seq<char>) -> Option<MapVal>
    decreases es.len(),
{
    if es.len() == 0 {
        None
    } else if es[0].0@ == k {
        Some(es[0].1)
    } else {
        entries_get(es.drop_first(), k)
    }
}

/// Keys strictly ascend, so each occurs at most once.
spec fn entries_sorted(es: Seq<(Server, MapVal)>) -> bool {
    forall|i: int, j: int|
        0 <= i < j < es.len() ==> str_lt(#[trigger] es[i].0@, #[trigger] es[j].0@)
}

/// Index facts of a two-part concatenation.
proof fn lemma_concat_index(a: Seq<(Server, MapVal)>, b: Seq<(Server, MapVal)>, s: Seq<(Server, MapVal)>)
    requires
        s == a + b,
    ensures
        s.len() == a.len() + b.len(),
        forall|i: int| 0 <= i < a.len() ==> #[trigger] s[i] == a[i],
        forall|i: int| a.len() <= i < s.len() ==> #[trigger] s[i] == b[i - a.len()],
{
    assert forall|i: int| 0 <= i < a.len() implies #[trigger] s[i] == a[i] by {
        assert(s[i] == (a + b)[i]);
    }
    assert forall|i: int| a.len() <= i < s.len() implies #[trigger] s[i] == b[i - a.len()] by {
        assert(s[i] == (a + b)[i]);
    }
}

/// Index facts of a concatenation with a single element in the
/// middle.
proof fn lemma_split_index(
    a: Seq<(Server, MapVal)>,
    x: (Server, MapVal),
    b: Seq<(Server, MapVal)>,
    s: Seq<(Server, MapVal)>,
)
    requires
        s == a + seq![x] + b,
    ensures
        s.len() == a.len() + 1 + b.len(),
        forall|i: int| 0 <= i < a.len() ==> #[trigger] s[i] == a[i],
        s[a.len() as int] == x,
        forall|i: int| a.len() < i < s.len() ==> #[trigger] s[i] == b[i - a.len() - 1],
{
    assert forall|i: int| 0 <= i < a.len() implies #[trigger] s[i] == a[i] by {
        assert(s[i] == ((a + seq![x]) + b)[i]);
        assert((a + seq![x])[i] == a[i]);
    }
    assert(s[a.len() as int] == ((a + seq![x]) + b)[a.len() as int]);
    assert((a + seq![x])[a.len() as int] == x);
    assert forall|i: int| a.len() < i < s.len() implies #[trigger] s[i] == b[i - a.len() - 1] by {
        assert(s[i] == ((a + seq![x]) + b)[i]);
    }
}

/// Looking a key up in a concatenation searches the left part first.
proof fn lemma_entries_get_concat(a: Seq<(Server, MapVal)>, b: Seq<(Server, MapVal)>, k: Seq<char>)
    ensures
        entries_get(a + b, k) == (match entries_get(a, k) {
            Some(v) => Some(v),
            None => entries_get(b, k),
        }),
    decreases a.len(),
{
    if a.len() == 0 {
        assert(a + b =~= b);
    } else {
        assert((a + b)[0] == a[0]);
        assert((a + b).len() > 0);
        if a[0].0@ == k {
        } else {
            assert((a + b).drop_first() =~= a.drop_first() + b);
            lemma_entries_get_concat(a.drop_first(), b, k);
        }
    }
}

/// A key that no entry carries is not found.
proof fn lemma_entries_get_absent(es: Seq<(Server, MapVal)>, k: Seq<char>)
    requires
        forall|t: int| 0 <= t < es.len() ==> (#[trigger] es[t].0@) != k,
    ensures
        entries_get(es, k) is None,
    decreases es.len(),
{
    if es.len() > 0 {
        assert(es.drop_first() =~= es.skip(1));
        assert(forall|t: int|
            0 <= t < es.drop_first().len() ==> (#[trigger] es.drop_first()[t]) == es[t + 1]);
        lemma_entries_get_absent(es.drop_first(), k);
    }
}

/// In a sorted entry list, looking up the key at an index finds that
/// index's value.
proof fn lemma_entries_get_at(es: Seq<(Server, MapVal)>, t: int)
    requires
        entries_sorted(es),
        0 <= t < es.len(),
    ensures
        entries_get(es, es[t].0@) == Some(es[t].1),
    decreases es.len(),
{
    if t > 0 {
        assert(str_lt(es[0].0@, es[t].0@));
        if es[0].0@ == es[t].0@ {
            lemma_str_lt_irrefl(es[t].0@);
        }
        assert(es[0].0@ != es[t].0@);
        assert(forall|u: int|
            0 <= u < es.drop_first().len() ==> (#[trigger] es.drop_first()[u]) == es[u + 1]);
        assert(entries_sorted(es.drop_first()));
        lemma_entries_get_at(es.drop_first(), t - 1);
        assert(es.drop_first()[t - 1] == es[t]);
    }
}

impl ServerMap {
    /// The names are strictly sorted; each occurs once.
    pub closed spec fn wf(self) -> bool {
        entries_sorted(self.entries@)
    }

    /// The configuration and bouncer networks stored under a name.
    pub closed spec fn spec_get(self, k: Seq<char>) -> Option<(ServerConfig, Seq<BouncerNetwork>)> {
        match entries_get(self.entries@, k) {
            Some(v) => Some((v.config, v.children@)),
            None => None,
        }
    }

    /// Whether a name is in the map.
    pub open spec fn contains_key(self, k: Seq<char>) -> bool {
        self.spec_get(k) is Some
    }

    /// The names in the map, in their stored (ascending) order.
    pub closed spec fn spec_keys(self) -> Seq<Seq<char>> {
        self.entries@.map_values(|e: (Server, MapVal)| e.0@)
    }
}

impl Default for ServerMap {
    /// The empty map.
    fn default() -> (r: Self)
        ensures
            r.wf(),
            forall|k: Seq<char>| !r.contains_key(k),
            r.spec_keys().len() == 0,
    {
        let r = ServerMap { entries: Vec::new() };
        proof {
            assert forall|k: Seq<char>| !r.contains_key(k) by {
                assert(entries_get(r.entries@, k) is None);
            }
        }
        r
    }
}

impl ServerMap {
    /// Inserts a server with its configuration. A server already
    /// present is replaced, and its bouncer networks are dropped.
    #[verifier::loop_isolation(false)]
    pub fn insert(&mut self, name: Server, server: ServerConfig)
        requires
            old(self).wf(),
        ensures
            final(self).wf(),
            final(self).spec_get(name@) == Some((server, Seq::<BouncerNetwork>::empty())),
            forall|k: Seq<char>| k != name@ ==> final(self).spec_get(k) == old(self).spec_get(k),
            forall|k: Seq<char>|
                final(self).contains_key(k) == (old(self).contains_key(k) || k == name@),
    {
        let ghost olde = self.entries@;
        let n = self.entries.len();
        let mut pos: usize = 0;
        while pos < n && str_lt_str(self.entries[pos].0.as_str(), name.as_str())
            invariant
                pos <= n,
                forall|t: int| 0 <= t < pos ==> str_lt((#[trigger] olde[t]).0@, name@),
            decreases n - pos,
        {
            pos += 1;
        }
        proof {
            assert forall|t: int| 0 <= t < olde.len() && t < pos implies olde[t].0@ != name@ by {
                if olde[t].0@ == name@ {
                    lemma_str_lt_irrefl(name@);
                }
            }
        }
        let replace = pos < n && str_eq(self.entries[pos].0.as_str(), name.as_str());
        let val = MapVal { config: server, children: Vec::new() };
        if replace {
            let ghost oldpair = olde[pos as int];
            let _removed = self.entries.remove(pos);
            self.entries.insert(pos, (name, val));
            proof {
                let ghost newe = self.entries@;
                assert(newe =~= olde.take(pos as int) + seq![newe[pos as int]] + olde.skip(
                    pos as int + 1,
                ));
                assert(newe[pos as int].0@ == name@);
                assert(newe.len() == olde.len());
                assert forall|i: int, j: int| 0 <= i < j < newe.len() implies str_lt(
                    newe[i].0@,
                    newe[j].0@,
                ) by {
                    assert(oldpair.0@ == name@);
                    if i != pos && j != pos {
                        assert(newe[i] == olde[i]);
                        assert(newe[j] == olde[j]);
                    } else if i == pos {
                        assert(newe[j] == olde[j]);
                        assert(str_lt(olde[pos as int].0@, olde[j].0@));
                    } else {
                        assert(newe[i] == olde[i]);
                        assert(str_lt(olde[i].0@, olde[pos as int].0@));
                    }
                }
                lemma_insert_get(olde, newe, pos as int, name@, true);
            }
        } else {
            self.entries.insert(pos, (name, val));
            proof {
                let ghost newe = self.entries@;
                assert(newe =~= olde.take(pos as int) + seq![newe[pos as int]] + olde.skip(
                    pos as int,
                ));
                assert(newe[pos as int].0@ == name@);
                if pos < olde.len() {
                    assert(!str_lt(olde[pos as int].0@, name@));
                    assert(olde[pos as int].0@ != name@);
                    lemma_str_lt_connex(name@, olde[pos as int].0@);
                    assert(str_lt(name@, olde[pos as int].0@));
                }
                assert forall|i: int, j: int| 0 <= i < j < newe.len() implies str_lt(
                    newe[i].0@,
                    newe[j].0@,
                ) by {
                    if i < pos && j < pos {
                        assert(newe[i] == olde[i]);
                        assert(newe[j] == olde[j]);
                    } else if i < pos && j == pos {
                        assert(newe[i] == olde[i]);
                    } else if i < pos && j > pos {
                        assert(newe[i] == olde[i]);
                        assert(newe[j] == olde[j - 1]);
                    } else if i == pos && j > pos {
                        assert(newe[j] == olde[j - 1]);
                        assert(str_lt(name@, olde[pos as int].0@));
                        if j - 1 > pos {
                            assert(str_lt(olde[pos as int].0@, olde[j - 1].0@));
                            lemma_str_lt_trans(name@, olde[pos as int].0@, olde[j - 1].0@);
                        }
                    } else {
                        assert(newe[i] == olde[i - 1]);
                        assert(newe[j] == olde[j - 1]);
                    }
                }
                lemma_insert_get(olde, newe, pos as int, name@, false);
            }
        }
    }

    /// Whether a server is in the map.
    #[verifier::loop_isolation(false)]
    pub fn contains(&self, server: &Server) -> (r: bool)
        ensures
            r == self.contains_key(server@),
    {
        let n = self.entries.len();
        let mut pos: usize = 0;
        while pos < n
            invariant
                pos <= n,
                n == self.entries@.len(),
                forall|t: int| 0 <= t < pos ==> (#[trigger] self.entries@[t]).0@ != server@,
            decreases n - pos,
        {
            if str_eq(self.entries[pos].0.as_str(), server.as_str()) {
                proof {
                    lemma_entries_get_at_found(self.entries@, pos as int, server@);
                }
                return true;
            }
            pos += 1;
        }
        proof {
            lemma_entries_get_absent(self.entries@, server@);
        }
        false
    }

    /// Removes a server, with its bouncer networks, if present.
    #[verifier::loop_isolation(false)]
    pub fn remove(&mut self, server: &Server)
        requires
            old(self).wf(),
        ensures
            final(self).wf(),
            final(self).spec_get(server@) is None,
            forall|k: Seq<char>| k != server@ ==> final(self).spec_get(k) == old(self).spec_get(k),
    {
        let ghost olde = self.entries@;
        let n = self.entries.len();
        let mut pos: usize = 0;
        while pos < n
            invariant
                pos <= n,
                n == self.entries@.len(),
                self.entries@ == olde,
                forall|t: int| 0 <= t < pos ==> (#[trigger] olde[t]).0@ != server@,
            decreases n - pos,
        {
            if str_eq(self.entries[pos].0.as_str(), server.as_str()) {
                let _removed = self.entries.remove(pos);
                proof {
                    let ghost newe = self.entries@;
                    assert(newe =~= olde.take(pos as int) + olde.skip(pos as int + 1));
                    lemma_concat_index(olde.take(pos as int), olde.skip(pos as int + 1), newe);
                    assert forall|i: int, j: int| 0 <= i < j < newe.len() implies str_lt(
                        newe[i].0@,
                        newe[j].0@,
                    ) by {
                        let io: int = if i < pos { i } else { i + 1 };
                        let jo: int = if j < pos { j } else { j + 1 };
                        assert(newe[i] == olde[io]);
                        assert(newe[j] == olde[jo]);
                    }
                    assert forall|u: int| 0 <= u < olde.skip(pos as int + 1).len() implies (
                    #[trigger] olde.skip(pos as int + 1)[u]).0@ != server@ by {
                        assert(olde.skip(pos as int + 1)[u] == olde[u + pos + 1]);
                        assert(str_lt(olde[pos as int].0@, olde[u + pos + 1].0@));
                        if olde[u + pos + 1].0@ == server@ {
                            lemma_str_lt_irrefl(server@);
                        }
                    }
                    lemma_entries_get_absent(olde.take(pos as int), server@);
                    lemma_entries_get_absent(olde.skip(pos as int + 1), server@);
                    lemma_entries_get_concat(olde.take(pos as int), olde.skip(pos as int + 1), server@);
                    assert(entries_get(newe, server@) is None);
                    assert forall|k: Seq<char>| k != server@ implies entries_get(newe, k)
                        == entries_get(olde, k) by {
                        lemma_entries_get_concat(olde.take(pos as int), olde.skip(pos as int + 1), k);
                        assert(olde =~= olde.take(pos as int) + (seq![olde[pos as int]] + olde.skip(
                            pos as int + 1,
                        )));
                        lemma_entries_get_concat(
                            olde.take(pos as int),
                            seq![olde[pos as int]] + olde.skip(pos as int + 1),
                            k,
                        );
                        lemma_entries_get_cons(olde[pos as int], olde.skip(pos as int + 1), k);
                    }
                }
                return ;
            }
            pos += 1;
        }
        proof {
            lemma_entries_get_absent(olde, server@);
        }
    }

    /// Attaches a bouncer network to a server already in the map; with
    /// no such server the map is unchanged.
    #[verifier::loop_isolation(false)]
    pub fn insert_bouncer_network(&mut self, name: &Server, network: BouncerNetwork)
        requires
            old(self).wf(),
        ensures
            final(self).wf(),
            forall|k: Seq<char>| k != name@ ==> final(self).spec_get(k) == old(self).spec_get(k),
            match old(self).spec_get(name@) {
                Some((c, ch)) => final(self).spec_get(name@) == Some((c, ch.push(network))),
                None => final(self).spec_get(name@) is None,
            },
    {
        let ghost olde = self.entries@;
        let n = self.entries.len();
        let mut pos: usize = 0;
        while pos < n
            invariant
                pos <= n,
                n == self.entries@.len(),
                self.entries@ == olde,
                forall|t: int| 0 <= t < pos ==> (#[trigger] olde[t]).0@ != name@,
            decreases n - pos,
        {
            if str_eq(self.entries[pos].0.as_str(), name.as_str()) {
                let mut pair = self.entries.remove(pos);
                pair.1.children.push(network);
                self.entries.insert(pos, pair);
                proof {
                    let ghost newe = self.entries@;
                    assert(newe =~= olde.take(pos as int) + seq![newe[pos as int]] + olde.skip(
                        pos as int + 1,
                    ));
                    lemma_split_index(
                        olde.take(pos as int),
                        newe[pos as int],
                        olde.skip(pos as int + 1),
                        newe,
                    );
                    assert(olde =~= olde.take(pos as int) + seq![olde[pos as int]] + olde.skip(
                        pos as int + 1,
                    ));
                    lemma_split_index(
                        olde.take(pos as int),
                        olde[pos as int],
                        olde.skip(pos as int + 1),
                        olde,
                    );
                    assert(newe.len() == olde.len());
                    assert(newe[pos as int].0 == olde[pos as int].0);
                    assert(newe[pos as int].1.config == olde[pos as int].1.config);
                    assert(newe[pos as int].1.children@ == olde[pos as int].1.children@.push(
                        network,
                    ));
                    assert forall|i: int, j: int| 0 <= i < j < newe.len() implies str_lt(
                        newe[i].0@,
                        newe[j].0@,
                    ) by {
                        if i != pos {
                            assert(newe[i] == olde[i]);
                        }
                        if j != pos {
                            assert(newe[j] == olde[j]);
                        }
                        assert(newe[i].0@ == olde[i].0@);
                        assert(newe[j].0@ == olde[j].0@);
                    }
                    lemma_entries_get_at(olde, pos as int);
                    lemma_entries_get_at_found(newe, pos as int, name@);
                    assert forall|k: Seq<char>| k != name@ implies entries_get(newe, k)
                        == entries_get(olde, k) by {
                        assert(newe =~= olde.take(pos as int) + (seq![newe[pos as int]]
                            + olde.skip(pos as int + 1)));
                        lemma_entries_get_concat(
                            olde.take(pos as int),
                            seq![newe[pos as int]] + olde.skip(pos as int + 1),
                            k,
                        );
                        lemma_entries_get_cons(newe[pos as int], olde.skip(pos as int + 1), k);
                        assert(olde =~= olde.take(pos as int) + (seq![olde[pos as int]] + olde.skip(
                            pos as int + 1,
                        )));
                        lemma_entries_get_concat(
                            olde.take(pos as int),
                            seq![olde[pos as int]] + olde.skip(pos as int + 1),
                            k,
                        );
                        lemma_entries_get_cons(olde[pos as int], olde.skip(pos as int + 1), k);
                    }
                }
                return ;
            }
            pos += 1;
        }
        proof {
            lemma_entries_get_absent(olde, name@);
        }
    }

    /// Stores a password value into the configuration of a server, at
    /// the target a fulfilled password read points to; with no such
    /// server the map is unchanged.
    #[verifier::loop_isolation(false)]
    pub fn store_password(&mut self, server: &Server, target: &PasswordTarget, value: String)
        requires
            old(self).wf(),
        ensures
            final(self).wf(),
            forall|k: Seq<char>|
                k != server@ ==> final(self).spec_get(k) == old(self).spec_get(k),
            match old(self).spec_get(server@) {
                Some((c, ch)) => final(self).spec_get(server@) == Some(
                    (ServerConfig::spec_stored(c, *target, value), ch),
                ),
                None => final(self).spec_get(server@) is None,
            },
    {
        let ghost olde = self.entries@;
        let n = self.entries.len();
        let mut pos: usize = 0;
        while pos < n
            invariant
                pos <= n,
                n == self.entries@.len(),
                self.entries@ == olde,
                forall|t: int| 0 <= t < pos ==> (#[trigger] olde[t]).0@ != server@,
            decreases n - pos,
        {
            if str_eq(self.entries[pos].0.as_str(), server.as_str()) {
                let mut pair = self.entries.remove(pos);
                pair.1.config.store_password(target, value);
                self.entries.insert(pos, pair);
                proof {
                    let ghost newe = self.entries@;
                    assert(newe =~= olde.take(pos as int) + seq![newe[pos as int]] + olde.skip(
                        pos as int + 1,
                    ));
                    lemma_split_index(
                        olde.take(pos as int),
                        newe[pos as int],
                        olde.skip(pos as int + 1),
                        newe,
                    );
                    assert(olde =~= olde.take(pos as int) + seq![olde[pos as int]] + olde.skip(
                        pos as int + 1,
                    ));
                    lemma_split_index(
                        olde.take(pos as int),
                        olde[pos as int],
                        olde.skip(pos as int + 1),
                        olde,
                    );
                    assert(newe[pos as int].0 == olde[pos as int].0);
                    assert(newe[pos as int].1.children@ == olde[pos as int].1.children@);
                    assert forall|i: int, j: int| 0 <= i < j < newe.len() implies str_lt(
                        newe[i].0@,
                        newe[j].0@,
                    ) by {
                        if i != pos {
                            assert(newe[i] == olde[i]);
                        }
                        if j != pos {
                            assert(newe[j] == olde[j]);
                        }
                        assert(newe[i].0@ == olde[i].0@);
                        assert(newe[j].0@ == olde[j].0@);
                    }
                    lemma_entries_get_at(olde, pos as int);
                    lemma_entries_get_at_found(newe, pos as int, server@);
                    assert forall|k: Seq<char>| k != server@ implies entries_get(newe, k)
                        == entries_get(olde, k) by {
                        assert(newe =~= olde.take(pos as int) + (seq![newe[pos as int]]
                            + olde.skip(pos as int + 1)));
                        lemma_entries_get_concat(
                            olde.take(pos as int),
                            seq![newe[pos as int]] + olde.skip(pos as int + 1),
                            k,
                        );
                        lemma_entries_get_cons(newe[pos as int], olde.skip(pos as int + 1), k);
                        assert(olde =~= olde.take(pos as int) + (seq![olde[pos as int]] + olde.skip(
                            pos as int + 1,
                        )));
                        lemma_entries_get_concat(
                            olde.take(pos as int),
                            seq![olde[pos as int]] + olde.skip(pos as int + 1),
                            k,
                        );
                        lemma_entries_get_cons(olde[pos as int], olde.skip(pos as int + 1), k);
                    }
                }
                return ;
            }
            pos += 1;
        }
        proof {
            lemma_entries_get_absent(olde, server@);
        }
    }

    /// The server names, in ascending order.
    #[verifier::loop_isolation(false)]
    pub fn keys(&self) -> (r: Vec<Server>)
        ensures
            r@.map_values(|s: Server| s@) == self.spec_keys(),
    {
        let n = self.entries.len();
        let mut out: Vec<Server> = Vec::new();
        let mut i: usize = 0;
        while i < n
            invariant
                i <= n,
                out@.len() == i,
                forall|t: int| 0 <= t < i ==> (#[trigger] out@[t])@ == self.entries@[t].0@,
            decreases n - i,
        {
            out.push(self.entries[i].0.clone());
            i += 1;
        }
        proof {
            assert(out@.map_values(|s: Server| s@) =~= self.spec_keys());
        }
        out
    }

    /// Every entry of the listing, primary rows first within each
    /// server: the server itself, then one row per bouncer network.
    #[verifier::loop_isolation(false)]
    pub fn entries(&self) -> (r: Vec<Entry>)
        requires
            self.wf(),
        ensures
            forall|i: int|
                0 <= i < r@.len() ==> match self.spec_get((#[trigger] r@[i]).server@) {
                    Some((c, ch)) => r@[i].config == c && (match r@[i].bouncer_network {
                        Some(nw) => ch.contains(nw),
                        None => true,
                    }),
                    None => false,
                },
    {
        let n = self.entries.len();
        let mut out: Vec<Entry> = Vec::new();
        let mut i: usize = 0;
        while i < n
            invariant
                i <= n,
                forall|t: int|
                    0 <= t < out@.len() ==> match self.spec_get((#[trigger] out@[t]).server@) {
                        Some((c, ch)) => out@[t].config == c && (match out@[t].bouncer_network {
                            Some(nw) => ch.contains(nw),
                            None => true,
                        }),
                        None => false,
                    },
            decreases n - i,
        {
            proof {
                lemma_entries_get_at(self.entries@, i as int);
            }
            let mut group = Entry::from(&self.entries[i].0, &self.entries[i].1);
            let gn = group.len();
            let mut j: usize = 0;
            while j < gn
                invariant
                    j <= gn,
                    gn == group@.len(),
                    group@.len() == 1 + self.entries@[i as int].1.children@.len(),
                    group@[0].server == self.entries@[i as int].0,
                    group@[0].config == self.entries@[i as int].1.config,
                    group@[0].bouncer_network is None,
                    forall|u: int|
                        1 <= u < group@.len() ==> (#[trigger] group@[u]).server
                            == self.entries@[i as int].0 && group@[u].config
                            == self.entries@[i as int].1.config && group@[u].bouncer_network
                            == Some(self.entries@[i as int].1.children@[u - 1]),
                    i < n,
                    entries_get(self.entries@, self.entries@[i as int].0@) == Some(
                        self.entries@[i as int].1,
                    ),
                    forall|t: int|
                        0 <= t < out@.len() ==> match self.spec_get((#[trigger] out@[t]).server@) {
                            Some((c, ch)) => out@[t].config == c && (match out@[t].bouncer_network {
                                Some(nw) => ch.contains(nw),
                                None => true,
                            }),
                            None => false,
                        },
                decreases gn - j,
            {
                let e = group[j].clone();
                proof {
                    if j >= 1 {
                        let ghost ch = self.entries@[i as int].1.children@;
                        assert(e.bouncer_network == Some(ch[j - 1]));
                        assert(ch.contains(ch[j - 1]));
                    }
                }
                out.push(e);
                j += 1;
            }
            i += 1;
        }
        out
    }

    /// One row per server, without bouncer-network rows.
    #[verifier::loop_isolation(false)]
    pub fn primary_entries(&self) -> (r: Vec<Entry>)
        requires
            self.wf(),
        ensures
            r@.len() == self.spec_keys().len(),
            forall|i: int|
                0 <= i < r@.len() ==> (#[trigger] r@[i]).server@ == self.spec_keys()[i] && r@[i].bouncer_network
                    is None && (match self.spec_get(self.spec_keys()[i]) {
                    Some((c, ch)) => r@[i].config == c,
                    None => false,
                }),
    {
        let n = self.entries.len();
        let mut out: Vec<Entry> = Vec::new();
        let mut i: usize = 0;
        while i < n
            invariant
                i <= n,
                out@.len() == i,
                forall|t: int|
                    0 <= t < i ==> (#[trigger] out@[t]).server@ == self.entries@[t].0@
                        && out@[t].bouncer_network is None && out@[t].config
                        == self.entries@[t].1.config,
            decreases n - i,
        {
            proof {
                lemma_entries_get_at(self.entries@, i as int);
            }
            out.push(Entry::primary_entry(&self.entries[i].0, &self.entries[i].1));
            i += 1;
        }
        proof {
            assert forall|i: int| 0 <= i < out@.len() implies (#[trigger] out@[i]).server@
                == self.spec_keys()[i] && out@[i].bouncer_network is None && (
            match self.spec_get(self.spec_keys()[i]) {
                Some((c, ch)) => out@[i].config == c,
                None => false,
            }) by {
                lemma_entries_get_at(self.entries@, i);
            }
        }
        out
    }
}

/// After inserting a pair with key `name` at `pos` — with everything
/// before `pos` carrying other keys — the new key is found with the
/// inserted value and every other key finds what it found before.
/// `replaced` tells whether the entry previously at `pos` (which then
/// also carried `name`) was dropped.
#[verifier::rlimit(100)]
proof fn lemma_insert_get(
    olde: Seq<(Server, MapVal)>,
    newe: Seq<(Server, MapVal)>,
    pos: int,
    name: Seq<char>,
    replaced: bool,
)
    requires
        0 <= pos <= olde.len(),
        replaced ==> pos < olde.len() && olde[pos].0@ == name,
        pos < newe.len(),
        newe[pos].0@ == name,
        newe =~= if replaced {
            olde.take(pos) + seq![newe[pos]] + olde.skip(pos + 1)
        } else {
            olde.take(pos) + seq![newe[pos]] + olde.skip(pos)
        },
        forall|t: int| 0 <= t < pos ==> (#[trigger] olde[t]).0@ != name,
    ensures
        entries_get(newe, name) == Some(newe[pos].1),
        forall|k: Seq<char>| k != name ==> entries_get(newe, k) == entries_get(olde, k),
{
    let a = olde.take(pos);
    let rest = if replaced {
        olde.skip(pos + 1)
    } else {
        olde.skip(pos)
    };
    assert(newe =~= a + (seq![newe[pos]] + rest));
    assert(forall|t: int| 0 <= t < a.len() ==> (#[trigger] a[t]) == olde[t]);
    lemma_entries_get_absent(a, name);
    lemma_entries_get_concat(a, seq![newe[pos]] + rest, name);
    lemma_entries_get_cons(newe[pos], rest, name);
    assert(entries_get(newe, name) == Some(newe[pos].1));
    assert forall|k: Seq<char>| k != name implies entries_get(newe, k) == entries_get(olde, k) by {
        lemma_entries_get_concat(a, seq![newe[pos]] + rest, k);
        lemma_entries_get_cons(newe[pos], rest, k);
        if replaced {
            assert(olde =~= a + (seq![olde[pos]] + olde.skip(pos + 1)));
            lemma_entries_get_concat(a, seq![olde[pos]] + olde.skip(pos + 1), k);
            lemma_entries_get_cons(olde[pos], olde.skip(pos + 1), k);
        } else {
            assert(olde =~= a + rest);
            lemma_entries_get_concat(a, rest, k);
        }
    }
}

/// Looking a key up in a list starting with `x` checks `x` first.
proof fn lemma_entries_get_cons(x: (Server, MapVal), rest: Seq<(Server, MapVal)>, k: Seq<char>)
    ensures
        entries_get(seq![x] + rest, k) == (if x.0@ == k {
            Some(x.1)
        } else {
            entries_get(rest, k)
        }),
{
    assert((seq![x] + rest)[0] == x);
    assert((seq![x] + rest).len() > 0);
    assert((seq![x] + rest).drop_first() =~= rest);
}

/// An entry list whose position `t` carries key `k`, with every
/// earlier position carrying another key, finds position `t`.
proof fn lemma_entries_get_at_found(es: Seq<(Server, MapVal)>, t: int, k: Seq<char>)
    requires
        0 <= t < es.len(),
        es[t].0@ == k,
        forall|u: int| 0 <= u < t ==> (#[trigger] es[u]).0@ != k,
    ensures
        entries_get(es, k) == Some(es[t].1),
    decreases t,
{
    if t == 0 {
    } else {
        assert(forall|u: int|
            0 <= u < es.drop_first().len() ==> (#[trigger] es.drop_first()[u]) == es[u + 1]);
        lemma_entries_get_at_found(es.drop_first(), t - 1, k);
    }
}

impl Entry {
    /// The primary row of one server.
    fn primary_entry(server: &Server, v: &MapVal) -> (e: Entry)
        ensures
            e.server == *server,
            e.config == v.config,
            e.bouncer_network is None,
    {
        Entry { server: server.clone(), config: v.config.clone(), bouncer_network: None }
    }

    /// All the rows of one server: the primary row, then one row per
    /// bouncer network.
    #[verifier::loop_isolation(false)]
    fn from(server: &Server, v: &MapVal) -> (r: Vec<Entry>)
        ensures
            r@.len() == 1 + v.children@.len(),
            r@[0].server == *server,
            r@[0].config == v.config,
            r@[0].bouncer_network is None,
            forall|j: int|
                1 <= j < r@.len() ==> (#[trigger] r@[j]).server == *server && r@[j].config
                    == v.config && r@[j].bouncer_network == Some(v.children@[j - 1]),
    {
        let mut out: Vec<Entry> = Vec::new();
        out.push(Entry::primary_entry(server, v));
        let cn = v.children.len();
        let mut j: usize = 0;
        while j < cn
            invariant
                j <= cn,
                out@.len() == 1 + j,
                out@[0].server == *server,
                out@[0].config == v.config,
                out@[0].bouncer_network is None,
                forall|u: int|
                    1 <= u < out@.len() ==> (#[trigger] out@[u]).server == *server && out@[u].config
                        == v.config && out@[u].bouncer_network == Some(v.children@[u - 1]),
            decreases cn - j,
        {
            out.push(
                Entry {
                    server: server.clone(),
                    config: v.config.clone(),
                    bouncer_network: Some(v.children[j].clone()),
                },
            );
            j += 1;
        }
        out
    }
}

} // verus!
