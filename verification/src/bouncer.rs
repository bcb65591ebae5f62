//! Bouncer network descriptions, parsed from `key=value` parameter
//! strings separated by semicolons. A later occurrence of a key
//! overrides an earlier one, and pieces without an equals sign are
//! ignored.
use vstd::prelude::*;

use crate::strutil::first_index;
use crate::strutil::lemma_first_index_props;
use crate::strutil::parse_u16;
use crate::strutil::spec_parse_u16;
use crate::strutil::str_eq;

verus! {

/// The connection state a bouncer reports for a network.
#[derive(Debug, Clone, Copy, PartialEq, Eq, Structural)]
pub enum NetworkState {
    Connected,
    Connecting,
    Disconnected,
}

impl NetworkState {
    /// The state a textual value names, if any.
    pub open spec fn spec_from_str(s: Seq<char>) -> Option<NetworkState> {
        if s == "connected"@ {
            Some(NetworkState::Connected)
        } else if s == "connecting"@ {
            Some(NetworkState::Connecting)
        } else if s == "disconnected"@ {
            Some(NetworkState::Disconnected)
        } else {
            None
        }
    }

    /// Parses a textual state value.
    pub fn from_str(s: &str) -> (r: Result<NetworkState, ()>)
        ensures
            r matches Ok(st) ==> Self::spec_from_str(s@) == Some(st),
            (r is Err) == (Self::spec_from_str(s@) is None),
    {
        if str_eq(s, "connected") {
            Ok(NetworkState::Connected)
        } else if str_eq(s, "connecting") {
            Ok(NetworkState::Connecting)
        } else if str_eq(s, "disconnected") {
            Ok(NetworkState::Disconnected)
        } else {
            Err(())
        }
    }
}

// ------------------------------------------------------------------
// Parameter strings: `key=value` pairs separated by semicolons.
// ------------------------------------------------------------------

/// The pieces of `s` split at every occurrence of `sep`.
pub open spec fn spec_split(s: Seq<char>, sep: char) -> Seq<Seq<char>>
    decreases s.len(),
    when true
    via spec_split_dec
{
    let k = first_index(s, sep);
    if k == s.len() {
        seq![s]
    } else {
        seq![s.take(k)] + spec_split(s.skip(k + 1), sep)
    }
}

#[via_fn]
proof fn spec_split_dec(s: Seq<char>, sep: char) {
    lemma_first_index_props(s, sep);
}

/// The split of a piece at its first equals sign, if it has one.
pub open spec fn spec_split_once(p: Seq<char>, sep: char) -> Option<(Seq<char>, Seq<char>)> {
    let k = first_index(p, sep);
    if k == p.len() {
        None
    } else {
        Some((p.take(k), p.skip(k + 1)))
    }
}

/// The key-value pairs among a sequence of pieces, in order: each
/// piece holding an equals sign contributes its first split.
pub open spec fn spec_params_of(pieces: Seq<Seq<char>>) -> Seq<(Seq<char>, Seq<char>)>
    decreases pieces.len(),
{
    if pieces.len() == 0 {
        Seq::empty()
    } else {
        spec_params_of(pieces.drop_last()) + (match spec_split_once(pieces.last(), '=') {
            Some(pr) => seq![pr],
            None => Seq::empty(),
        })
    }
}

/// The key-value pairs of a whole parameter string.
pub open spec fn spec_params(s: Seq<char>) -> Seq<(Seq<char>, Seq<char>)> {
    spec_params_of(spec_split(s, ';'))
}

/// The value of the last pair with the given key, if any — a later
/// occurrence of a key overrides an earlier one.
pub open spec fn spec_lookup(pairs: Seq<(Seq<char>, Seq<char>)>, key: Seq<char>) -> Option<
    Seq<char>,
>
    decreases pairs.len(),
{
    if pairs.len() == 0 {
        None
    } else if pairs.last().0 == key {
        Some(pairs.last().1)
    } else {
        spec_lookup(pairs.drop_last(), key)
    }
}

/// The images of an executable pair list.
pub open spec fn pair_models(ps: Seq<(String, String)>) -> Seq<(Seq<char>, Seq<char>)> {
    ps.map_values(|pr: (String, String)| (pr.0@, pr.1@))
}

/// Splits a piece of the parameter string at its first equals sign.
#[verifier::loop_isolation(false)]
fn split_once_eq(p: &str) -> (r: Option<(String, String)>)
    ensures
        (r is Some) == (spec_split_once(p@, '=') is Some),
        r matches Some((k, v)) ==> Some((k@, v@)) == spec_split_once(p@, '='),
{
    let n = p.unicode_len();
    let mut j: usize = 0;
    while j < n
        invariant
            j <= n,
            forall|t: int| 0 <= t < j ==> p@[t] != '=',
        decreases n - j,
    {
        if p.get_char(j) == '=' {
            proof {
                lemma_first_index_props(p@, '=');
                assert(first_index(p@, '=') == j);
            }
            let k = p.substring_char(0, j).to_owned();
            let v = p.substring_char(j + 1, n).to_owned();
            proof {
                assert(k@ =~= p@.take(j as int));
                assert(v@ =~= p@.skip(j + 1));
            }
            return Some((k, v));
        }
        j += 1;
    }
    proof {
        lemma_first_index_props(p@, '=');
        assert(first_index(p@, '=') == p@.len());
    }
    None
}

/// Collects the key-value pairs of a parameter string: split at
/// semicolons, keep the pieces with an equals sign, split each at its
/// first one.
#[verifier::loop_isolation(false)]
fn param_pairs(s: &str) -> (r: Vec<(String, String)>)
    ensures
        pair_models(r@) == spec_params(s@),
{
    let n = s.unicode_len();
    let mut pairs: Vec<(String, String)> = Vec::new();
    let mut start: usize = 0;
    let mut j: usize = 0;
    proof {
        assert(pair_models(pairs@) =~= Seq::<(Seq<char>, Seq<char>)>::empty());
        assert(s@.skip(0) =~= s@);
        assert(pair_models(pairs@) + spec_params_of(spec_split(s@.skip(0), ';')) =~= spec_params_of(
            spec_split(s@, ';'),
        ));
    }
    while j < n
        invariant
            start <= j <= n,
            forall|t: int| start <= t < j ==> s@[t] != ';',
            spec_params(s@) == pair_models(pairs@) + spec_params_of(
                spec_split(s@.skip(start as int), ';'),
            ),
        decreases n - j,
    {
        if s.get_char(j) == ';' {
            let piece = s.substring_char(start, j).to_owned();
            proof {
                lemma_split_step(s@, start as int, j as int);
                assert(piece@ =~= s@.skip(start as int).take(j - start));
            }
            push_pair(&mut pairs, piece.as_str());
            proof {
                lemma_params_of_cons(
                    spec_split(s@.skip(start as int), ';'),
                    s@.skip(start as int).take(j - start),
                    spec_split(s@.skip(j + 1), ';'),
                );
            }
            start = j + 1;
        }
        j += 1;
    }
    let piece = s.substring_char(start, n).to_owned();
    proof {
        lemma_split_last(s@, start as int);
        assert(piece@ =~= s@.skip(start as int));
    }
    push_pair(&mut pairs, piece.as_str());
    proof {
        lemma_params_of_cons(
            spec_split(s@.skip(start as int), ';'),
            s@.skip(start as int),
            Seq::empty(),
        );
        assert(spec_params_of(Seq::<Seq<char>>::empty()) == Seq::<(Seq<char>, Seq<char>)>::empty());
        assert(pair_models(pairs@) + Seq::<(Seq<char>, Seq<char>)>::empty() =~= pair_models(
            pairs@,
        ));
    }
    pairs
}

/// When no separator occurs before `j` and one sits at `j`, the split
/// of the suffix at `start` begins with the piece up to `j`.
proof fn lemma_split_step(s: Seq<char>, start: int, j: int)
    requires
        0 <= start <= j < s.len(),
        s[j] == ';',
        forall|t: int| start <= t < j ==> s[t] != ';',
    ensures
        spec_split(s.skip(start), ';') == seq![s.skip(start).take(j - start)] + spec_split(
            s.skip(j + 1),
            ';',
        ),
{
    let t = s.skip(start);
    lemma_first_index_props(t, ';');
    assert(t[j - start] == ';');
    assert(forall|u: int| 0 <= u < j - start ==> t[u] != ';');
    assert(first_index(t, ';') == j - start);
    assert(t.skip(j - start + 1) =~= s.skip(j + 1));
}

/// When no separator occurs at or after `start`, the suffix is one
/// piece.
proof fn lemma_split_last(s: Seq<char>, start: int)
    requires
        0 <= start <= s.len(),
        forall|t: int| start <= t < s.len() ==> s[t] != ';',
    ensures
        spec_split(s.skip(start), ';') == seq![s.skip(start)],
{
    let t = s.skip(start);
    lemma_first_index_props(t, ';');
    assert(forall|u: int| 0 <= u < t.len() ==> t[u] != ';');
    assert(first_index(t, ';') == t.len());
}

/// The parameter pairs of a piece list starting with `p` are the pairs
/// of `p` followed by the pairs of the rest.
proof fn lemma_params_of_cons(pieces: Seq<Seq<char>>, p: Seq<char>, rest: Seq<Seq<char>>)
    requires
        pieces == seq![p] + rest,
    ensures
        spec_params_of(pieces) == (match spec_split_once(p, '=') {
            Some(pr) => seq![pr],
            None => Seq::<(Seq<char>, Seq<char>)>::empty(),
        }) + spec_params_of(rest),
    decreases rest.len(),
{
    if rest.len() == 0 {
        assert(pieces.len() == 1);
        assert(pieces.last() == p);
        assert(pieces.drop_last() =~= Seq::<Seq<char>>::empty());
        assert(spec_params_of(Seq::<Seq<char>>::empty()) == Seq::<(Seq<char>, Seq<char>)>::empty());
        assert(spec_params_of(pieces.drop_last()) == Seq::<(Seq<char>, Seq<char>)>::empty());
        assert(spec_params_of(rest) == Seq::<(Seq<char>, Seq<char>)>::empty());
        match spec_split_once(p, '=') {
            Some(pr) => {
                assert(spec_params_of(pieces) == Seq::<(Seq<char>, Seq<char>)>::empty() + seq![pr]);
                assert(Seq::<(Seq<char>, Seq<char>)>::empty() + seq![pr] =~= seq![pr]
                    + spec_params_of(rest));
            },
            None => {
                assert(spec_params_of(pieces) == Seq::<(Seq<char>, Seq<char>)>::empty()
                    + Seq::<(Seq<char>, Seq<char>)>::empty());
                assert(Seq::<(Seq<char>, Seq<char>)>::empty() + Seq::<
                    (Seq<char>, Seq<char>),
                >::empty() =~= Seq::<(Seq<char>, Seq<char>)>::empty() + spec_params_of(rest));
            },
        }
    } else {
        assert(pieces.last() == rest.last());
        assert(pieces.drop_last() =~= seq![p] + rest.drop_last());
        lemma_params_of_cons(pieces.drop_last(), p, rest.drop_last());
        let head = match spec_split_once(p, '=') {
            Some(pr) => seq![pr],
            None => Seq::<(Seq<char>, Seq<char>)>::empty(),
        };
        let tail = match spec_split_once(rest.last(), '=') {
            Some(pr) => seq![pr],
            None => Seq::<(Seq<char>, Seq<char>)>::empty(),
        };
        assert(spec_params_of(pieces) == (head + spec_params_of(rest.drop_last())) + tail);
        assert((head + spec_params_of(rest.drop_last())) + tail =~= head + (spec_params_of(
            rest.drop_last(),
        ) + tail));
    }
}

/// Appends the key-value pair of one piece, if it has one.
fn push_pair(pairs: &mut Vec<(String, String)>, piece: &str)
    ensures
        pair_models(final(pairs)@) == pair_models(old(pairs)@) + (match spec_split_once(
            piece@,
            '=',
        ) {
            Some(pr) => seq![pr],
            None => Seq::<(Seq<char>, Seq<char>)>::empty(),
        }),
{
    match split_once_eq(piece) {
        Some((k, v)) => {
            let ghost prev = pairs@;
            pairs.push((k, v));
            proof {
                assert(pair_models(pairs@) =~= pair_models(prev) + seq![
                    spec_split_once(piece@, '=').unwrap()]);
            }
        },
        None => {
            proof {
                assert(pair_models(pairs@) + Seq::<(Seq<char>, Seq<char>)>::empty() =~= pair_models(
                    pairs@,
                ));
            }
        },
    }
}

/// Looks a key up among the collected pairs; the last occurrence wins.
#[verifier::loop_isolation(false)]
fn lookup(pairs: &Vec<(String, String)>, key: &str) -> (r: Option<String>)
    ensures
        r.deep_view() == spec_lookup(pair_models(pairs@), key@),
{
    let mut i: usize = pairs.len();
    proof {
        assert(pair_models(pairs@).take(i as int) =~= pair_models(pairs@));
    }
    while i > 0
        invariant
            i <= pairs@.len(),
            spec_lookup(pair_models(pairs@), key@) == spec_lookup(
                pair_models(pairs@).take(i as int),
                key@,
            ),
        decreases i,
    {
        i -= 1;
        let ghost pm = pair_models(pairs@);
        proof {
            assert(pm.take(i + 1).last() == pm[i as int]);
            assert(pm.take(i + 1).drop_last() =~= pm.take(i as int));
        }
        if str_eq(pairs[i].0.as_str(), key) {
            return Some(pairs[i].1.clone());
        }
    }
    proof {
        assert(pair_models(pairs@).take(0) =~= Seq::<(Seq<char>, Seq<char>)>::empty());
    }
    None
}

/// A network a bouncer offers, with the connection parameters it
/// advertised.
#[derive(Debug)]
pub struct BouncerNetwork {
    pub id: String,
    pub name: String,
    pub host: String,
    pub state: NetworkState,
    pub port: Option<u16>,
    pub tls: Option<bool>,
    pub pass: Option<String>,
    pub nickname: Option<String>,
    pub realname: Option<String>,
    pub error: Option<String>,
}

impl Clone for BouncerNetwork {
    fn clone(&self) -> (r: Self)
        ensures
            r == *self,
    {
        BouncerNetwork {
            id: self.id.clone(),
            name: self.name.clone(),
            host: self.host.clone(),
            state: self.state,
            port: self.port,
            tls: self.tls,
            pass: crate::config::clone_opt_string(&self.pass),
            nickname: crate::config::clone_opt_string(&self.nickname),
            realname: crate::config::clone_opt_string(&self.realname),
            error: crate::config::clone_opt_string(&self.error),
        }
    }
}

impl BouncerNetwork {
    /// Parses a bouncer network description from its parameter string.
    /// Succeeds exactly when the `name` and `host` keys are present and
    /// the `port` key is present and names a network state.
    pub fn parse(id: String, s: &str) -> (r: Option<BouncerNetwork>)
        ensures
            ({
                let ps = spec_params(s@);
                &&& (r is Some) == (spec_lookup(ps, "name"@) is Some && spec_lookup(ps, "host"@)
                    is Some && spec_lookup(ps, "port"@) is Some && NetworkState::spec_from_str(
                    spec_lookup(ps, "port"@).unwrap(),
                ) is Some)
                &&& r matches Some(b) ==> {
                    &&& b.id == id
                    &&& b.name@ == spec_lookup(ps, "name"@).unwrap()
                    &&& b.host@ == spec_lookup(ps, "host"@).unwrap()
                    &&& Some(b.state) == NetworkState::spec_from_str(
                        spec_lookup(ps, "port"@).unwrap(),
                    )
                    &&& b.port == spec_parse_u16(spec_lookup(ps, "port"@).unwrap())
                    &&& b.tls == (if spec_lookup(ps, "port"@).unwrap() == "1"@ {
                        Some(true)
                    } else if spec_lookup(ps, "port"@).unwrap() == "0"@ {
                        Some(false)
                    } else {
                        None::<bool>
                    })
                    &&& b.pass.deep_view() == spec_lookup(ps, "pass"@)
                    &&& b.nickname.deep_view() == spec_lookup(ps, "nickname"@)
                    &&& b.realname.deep_view() == spec_lookup(ps, "realname"@)
                    &&& b.error.deep_view() == spec_lookup(ps, "error"@)
                }
            }),
    {
        let pairs = param_pairs(s);
        let name = match lookup(&pairs, "name") {
            Some(v) => v,
            None => {
                return None;
            },
        };
        let host = match lookup(&pairs, "host") {
            Some(v) => v,
            None => {
                return None;
            },
        };
        let port_value = match lookup(&pairs, "port") {
            Some(v) => v,
            None => {
                return None;
            },
        };
        let state = match NetworkState::from_str(port_value.as_str()) {
            Ok(st) => st,
            Err(_) => {
                return None;
            },
        };
        let port = parse_u16(port_value.as_str());
        let tls = if str_eq(port_value.as_str(), "1") {
            Some(true)
        } else if str_eq(port_value.as_str(), "0") {
            Some(false)
        } else {
            None
        };
        let nickname = lookup(&pairs, "nickname");
        let realname = lookup(&pairs, "realname");
        let pass = lookup(&pairs, "pass");
        let error = lookup(&pairs, "error");
        Some(
            BouncerNetwork {
                id,
                name,
                host,
                state,
                port,
                tls,
                pass,
                nickname,
                realname,
                error,
            },
        )
    }
}

} // verus!
