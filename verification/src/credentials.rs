//! Registry names in image references, and registry credentials read out of a
//! docker `config.json`.

use vstd::prelude::*;
use vstd::utf8::{decode_utf8, valid_utf8};

use crate::strings::find_char;

verus! {

/// The registry that images without a registry part are pulled from.
pub open spec fn default_registry() -> Seq<char> {
    seq!['d', 'o', 'c', 'k', 'e', 'r', '.', 'i', 'o']
}

/// The one registry name that holds neither a `.` nor a `:`.
pub open spec fn localhost() -> Seq<char> {
    seq!['l', 'o', 'c', 'a', 'l', 'h', 'o', 's', 't']
}

/// A first path component names a registry (and not a user or organisation on
/// the default registry) when it holds a `.` or a `:`, or is `localhost`.
pub open spec fn names_registry(component: Seq<char>) -> bool {
    component.contains('.') || component.contains(':') || component == localhost()
}

/// The registry and the image of a reference: the part before the first `/`
/// and the rest, where that part names a registry; else the default registry
/// and the whole reference.
pub open spec fn spec_parse_repository(name: Seq<char>) -> (Seq<char>, Seq<char>) {
    match name.index_of_first('/') {
        Some(i) => {
            let component = name.subrange(0, i);
            if names_registry(component) {
                (component, name.subrange(i + 1, name.len() as int))
            } else {
                (default_registry(), name)
            }
        },
        None => (default_registry(), name),
    }
}

/// An image reference split into the registry it lives on and the image.
pub struct Repository {
    pub registry: String,
    pub image: String,
}

/// Splits an image reference into its registry and its image.
pub fn parse_repository(name: &str) -> (res: Repository)
    ensures
        (res.registry@, res.image@) == spec_parse_repository(name@),
{
    let found = find_char(name, '/');
    match found {
        Some(index) => {
            let n = name.unicode_len();
            let component = name.substring_char(0, index);
            let has_dot = find_char(component, '.').is_some();
            let has_colon = find_char(component, ':').is_some();
            let is_localhost = String::from_str(component) == String::from_str("localhost");
            proof {
                reveal_strlit("localhost");
                assert("localhost"@ =~= localhost());
                if !has_dot {
                    assert(!component@.contains('.'));
                }
                if !has_colon {
                    assert(!component@.contains(':'));
                }
            }
            if !has_dot && !has_colon && !is_localhost {
                proof {
                    reveal_strlit("docker.io");
                    assert("docker.io"@ =~= default_registry());
                }
                Repository { registry: String::from_str("docker.io"), image: String::from_str(name) }
            } else {
                Repository {
                    registry: String::from_str(component),
                    image: String::from_str(name.substring_char(index + 1, n)),
                }
            }
        },
        None => {
            proof {
                reveal_strlit("docker.io");
                assert("docker.io"@ =~= default_registry());
            }
            Repository { registry: String::from_str("docker.io"), image: String::from_str(name) }
        },
    }
}


/// The index of the first occurrence of a value, after a value is pushed: it
/// does not move for other values, and a value that was absent is found at
/// the end.
pub proof fn lemma_index_of_first_push<A>(s: Seq<A>, x: A, r: A)
    ensures
        r != x ==> s.push(x).index_of_first(r) == s.index_of_first(r),
        !s.contains(x) ==> s.push(x).index_of_first(x) == Some(s.len() as int),
{
    let t = s.push(x);
    s.index_of_first_ensures(r);
    t.index_of_first_ensures(r);
    s.index_of_first_ensures(x);
    t.index_of_first_ensures(x);
    if r != x {
        match s.index_of_first(r) {
            Some(i) => {
                assert(t[i] == s[i]);
                let j = t.index_of_first(r).unwrap();
                if j < i {
                    assert(t[j] == s[j]);
                }
            },
            None => {
                if t.contains(r) {
                    let j = t.index_of_first(r).unwrap();
                    assert(t[j] == r);
                    if j < s.len() {
                        assert(t[j] == s[j]);
                    }
                }
            },
        }
    }
    if !s.contains(x) {
        assert(t[s.len() as int] == x);
        let j = t.index_of_first(x).unwrap();
        if j < s.len() {
            assert(t[j] == s[j]);
        }
    }
}

/// The base64 (standard alphabet, padded) decoding of a text: `None` where the
/// text is no valid encoding.
pub uninterp spec fn base64_standard_decode(encoded: Seq<char>) -> Option<Seq<u8>>;

/// Calls `base64::Engine::decode` of the `base64` crate with the engine
/// `BASE64_STANDARD` on the bytes of `encoded`. Claimed: the result is a
/// function of the text alone, named `base64_standard_decode`; nothing is
/// claimed of what that function computes.
#[verifier::external_body]
fn base64_decode(encoded: &str) -> (res: Option<Vec<u8>>)
    ensures
        match base64_standard_decode(encoded@) {
            Some(bytes) => res matches Some(v) && v@ == bytes,
            None => res is None,
        },
{
    base64::Engine::decode(&base64::prelude::BASE64_STANDARD, encoded).ok()
}

/// Calls `String::from_utf8` of std. Claimed, as its documentation says: it
/// succeeds exactly on valid UTF-8, and the string then holds the characters
/// that the bytes encode.
#[verifier::external_body]
fn string_from_utf8(bytes: Vec<u8>) -> (res: Option<String>)
    ensures
        res is Some <==> valid_utf8(bytes@),
        res matches Some(s) ==> s@ == decode_utf8(bytes@),
{
    String::from_utf8(bytes).ok()
}

/// `username:password`, split at the first `:`.
pub open spec fn spec_split_credentials(s: Seq<char>) -> Option<(Seq<char>, Seq<char>)> {
    match s.index_of_first(':') {
        Some(i) => Some((s.subrange(0, i), s.subrange(i + 1, s.len() as int))),
        None => None,
    }
}

/// The user name and password that decoded credentials hold: they must be
/// UTF-8 text of the form `username:password`.
pub open spec fn spec_credentials(decoded: Seq<u8>) -> Option<(Seq<char>, Seq<char>)> {
    if valid_utf8(decoded) {
        spec_split_credentials(decode_utf8(decoded))
    } else {
        None
    }
}

/// Splits `username:password` at its first `:`.
pub fn split_credentials(s: &str) -> (res: Option<(String, String)>)
    ensures
        match spec_split_credentials(s@) {
            Some((u, p)) => res matches Some((ru, rp)) && ru@ == u && rp@ == p,
            None => res is None,
        },
{
    match find_char(s, ':') {
        Some(i) => {
            let n = s.unicode_len();
            let username = String::from_str(s.substring_char(0, i));
            let password = String::from_str(s.substring_char(i + 1, n));
            Some((username, password))
        },
        None => None,
    }
}

/// The user name and password held by the decoded `auth` field of a registry
/// entry.
pub fn credentials_from_decoded(decoded: Vec<u8>) -> (res: Option<(String, String)>)
    ensures
        match spec_credentials(decoded@) {
            Some((u, p)) => res matches Some((ru, rp)) && ru@ == u && rp@ == p,
            None => res is None,
        },
{
    match string_from_utf8(decoded) {
        Some(text) => split_credentials(text.as_str()),
        None => None,
    }
}

/// One entry under `auths` in a docker `config.json`: a registry and its
/// base64 encoded `username:password`.
pub struct RegistryAuth {
    pub registry: String,
    pub auth: String,
}

/// The `auths` of a docker `config.json`: at most one entry per registry.
pub struct DockerConfig {
    auths: Vec<RegistryAuth>,
}

impl DockerConfig {
    /// The registries, in the order the entries are held.
    pub closed spec fn registries(&self) -> Seq<Seq<char>> {
        self.auths@.map_values(|e: RegistryAuth| e.registry@)
    }

    /// The encoded credentials, in the order the entries are held.
    pub closed spec fn encoded_auths(&self) -> Seq<Seq<char>> {
        self.auths@.map_values(|e: RegistryAuth| e.auth@)
    }

    #[verifier::type_invariant]
    closed spec fn no_registry_twice(&self) -> bool {
        self.registries().no_duplicates()
    }
}

impl View for DockerConfig {
    type V = Map<Seq<char>, Seq<char>>;

    /// Registry to encoded credentials.
    closed spec fn view(&self) -> Map<Seq<char>, Seq<char>> {
        Map::new(
            |r: Seq<char>| self.registries().contains(r),
            |r: Seq<char>| self.encoded_auths()[self.registries().index_of_first(r).unwrap()],
        )
    }
}

impl DockerConfig {
    /// The user name and password for `registry`, or `None` where the
    /// configuration holds no entry for it, or one that does not decode to
    /// `username:password`.
    pub open spec fn spec_get(&self, registry: Seq<char>) -> Option<(Seq<char>, Seq<char>)> {
        if self@.dom().contains(registry) {
            match base64_standard_decode(self@[registry]) {
                Some(decoded) => spec_credentials(decoded),
                None => None,
            }
        } else {
            None
        }
    }

    /// A configuration without entries.
    pub fn new() -> (res: DockerConfig)
        ensures
            res@ == Map::<Seq<char>, Seq<char>>::empty(),
    {
        let res = DockerConfig { auths: Vec::new() };
        assert(res@ =~= Map::<Seq<char>, Seq<char>>::empty());
        res
    }

    /// Where the entry for `registry` is held.
    fn position(&self, registry: &str) -> (res: Option<usize>)
        ensures
            match res {
                Some(i) => i < self.auths@.len() && self.registries().index_of_first(registry@)
                    == Some(i as int),
                None => self.registries().index_of_first(registry@) is None,
            },
    {
        let key = String::from_str(registry);
        let n = self.auths.len();
        let mut i: usize = 0;
        while i < n
            invariant
                n == self.auths@.len(),
                i <= n,
                key@ == registry@,
                forall|j: int| 0 <= j < i ==> self.registries()[j] != registry@,
            decreases n - i,
        {
            if self.auths[i].registry == key {
                proof {
                    assert(self.registries()[i as int] == registry@);
                    self.registries().index_of_first_ensures(registry@);
                }
                return Some(i);
            }
            assert(self.registries()[i as int] != registry@);
            i = i + 1;
        }
        proof {
            self.registries().index_of_first_ensures(registry@);
        }
        None
    }

    /// Sets the encoded credentials of `registry`, replacing any it had.
    pub fn insert(&mut self, registry: String, auth: String)
        ensures
            final(self)@ == old(self)@.insert(registry@, auth@),
    {
        proof {
            use_type_invariant(&*self);
        }
        let pos = self.position(registry.as_str());
        let ghost old_keys = self.registries();
        let ghost old_vals = self.encoded_auths();
        let ghost old_map = self@;
        let ghost key = registry@;
        let ghost val = auth@;
        let mut auths: Vec<RegistryAuth> = Vec::new();
        std::mem::swap(&mut auths, &mut self.auths);
        match pos {
            Some(i) => {
                auths.set(i, RegistryAuth { registry, auth });
                let ghost next = DockerConfig { auths };
                proof {
                    old_keys.index_of_first_ensures(key);
                    assert(next.registries() =~= old_keys);
                    assert(next.encoded_auths() =~= old_vals.update(i as int, val));
                    assert forall|r: Seq<char>| #[trigger] next@.dom().contains(r) implies next@[r]
                        == old_map.insert(key, val)[r] by {
                        old_keys.index_of_first_ensures(r);
                    }
                    assert(next@ =~= old_map.insert(key, val));
                }
            },
            None => {
                auths.push(RegistryAuth { registry, auth });
                let ghost next = DockerConfig { auths };
                proof {
                    old_keys.index_of_first_ensures(key);
                    assert(next.registries() =~= old_keys.push(key));
                    assert(next.encoded_auths() =~= old_vals.push(val));
                    assert forall|r: Seq<char>| #[trigger] old_map.insert(key, val).dom().contains(r)
                        implies next@.dom().contains(r) by {
                        if r == key {
                            assert(next.registries()[old_keys.len() as int] == key);
                        } else {
                            let j = old_keys.index_of(r);
                            assert(next.registries()[j] == r);
                        }
                    }
                    assert forall|r: Seq<char>| #[trigger] next@.dom().contains(r) implies next@[r]
                        == old_map.insert(key, val)[r] by {
                        lemma_index_of_first_push(old_keys, key, r);
                        old_keys.index_of_first_ensures(r);
                        if r != key {
                            let j = choose|j: int| 0 <= j < next.registries().len() && next.registries()[j] == r;
                            if j < old_keys.len() {
                                assert(old_keys[j] == r);
                            }
                        }
                    }
                    assert(next@ =~= old_map.insert(key, val));
                    assert(next.registries().no_duplicates());
                }
            },
        }
        self.auths = auths;
    }

    /// The user name and password that the configuration holds for
    /// `registry`.
    pub fn get(&self, registry: &str) -> (res: Option<(String, String)>)
        ensures
            match self.spec_get(registry@) {
                Some((u, p)) => res matches Some((ru, rp)) && ru@ == u && rp@ == p,
                None => res is None,
            },
    {
        match self.position(registry) {
            Some(i) => {
                proof {
                    self.registries().index_of_first_ensures(registry@);
                    assert(self@.dom().contains(registry@));
                    assert(self@[registry@] == self.auths@[i as int].auth@);
                }
                match base64_decode(self.auths[i].auth.as_str()) {
                    Some(decoded) => credentials_from_decoded(decoded),
                    None => None,
                }
            },
            None => {
                proof {
                    self.registries().index_of_first_ensures(registry@);
                }
                None
            },
        }
    }
}


/// What is read for a registry after its entry is set: the credentials the
/// new entry decodes to; every other registry reads as before.
pub proof fn lemma_get_after_insert(
    before: DockerConfig,
    after: DockerConfig,
    registry: Seq<char>,
    auth: Seq<char>,
    other: Seq<char>,
)
    requires
        after@ == before@.insert(registry, auth),
    ensures
        after.spec_get(registry) == match base64_standard_decode(auth) {
            Some(decoded) => spec_credentials(decoded),
            None => None,
        },
        other != registry ==> after.spec_get(other) == before.spec_get(other),
{
}

/// The credentials to pull an image with.
pub struct RegistryCredentials {
    pub username: String,
    pub password: String,
    pub serveraddress: String,
}

/// The user name, password and registry to pull `image` with, given the docker
/// configuration (`None` where none could be read).
pub open spec fn spec_registry_credentials(image: Seq<char>, config: Option<&DockerConfig>) -> Option<
    (Seq<char>, Seq<char>, Seq<char>),
> {
    let registry = spec_parse_repository(image).0;
    match config {
        Some(c) => match c.spec_get(registry) {
            Some((u, p)) => Some((u, p, registry)),
            None => None,
        },
        None => None,
    }
}

/// The credentials for the registry that `image` lives on, where the docker
/// configuration holds any.
pub fn registry_credentials(image: &str, config: Option<&DockerConfig>) -> (res: Option<
    RegistryCredentials,
>)
    ensures
        match spec_registry_credentials(image@, config) {
            Some((u, p, r)) => res matches Some(c) && c.username@ == u && c.password@ == p
                && c.serveraddress@ == r,
            None => res is None,
        },
{
    let repository = parse_repository(image);
    match config {
        Some(c) => match c.get(repository.registry.as_str()) {
            Some((username, password)) => Some(
                RegistryCredentials { username, password, serveraddress: repository.registry },
            ),
            None => None,
        },
        None => None,
    }
}

/// An image reference is rebuilt from its parts: it is either the image alone
/// on the default registry, or the registry, a `/` and the image. The
/// registry never holds a `/`.
pub proof fn lemma_repository_reassembles(name: Seq<char>)
    ensures
        ({
            let (registry, image) = spec_parse_repository(name);
            &&& !registry.contains('/')
            &&& {
                ||| registry == default_registry() && image == name
                ||| registry + seq!['/'] + image == name
            }
        }),
{
    name.index_of_first_ensures('/');
    let (registry, image) = spec_parse_repository(name);
    if registry == default_registry() && image == name {
        if default_registry().contains('/') {
            let k = choose|k: int| 0 <= k < default_registry().len() && default_registry()[k] == '/';
            assert(false);
        }
    } else {
        let i = name.index_of_first('/').unwrap();
        assert(registry + seq!['/'] + image =~= name);
        if registry.contains('/') {
            let k = choose|k: int| 0 <= k < registry.len() && registry[k] == '/';
            assert(name[k] == '/');
        }
    }
}

/// Credentials are split at the first `:`: the user name holds none, and the
/// user name, a `:` and the password give back the decoded text.
pub proof fn lemma_split_credentials_rejoins(s: Seq<char>)
    ensures
        spec_split_credentials(s) is Some <==> s.contains(':'),
        spec_split_credentials(s) matches Some((u, p)) ==> !u.contains(':') && u + seq![':'] + p
            == s,
{
    s.index_of_first_ensures(':');
    if let Some((u, p)) = spec_split_credentials(s) {
        let i = s.index_of_first(':').unwrap();
        assert(u + seq![':'] + p =~= s);
        if u.contains(':') {
            let k = choose|k: int| 0 <= k < u.len() && u[k] == ':';
            assert(s[k] == ':');
        }
    }
}


/// Where the registry comes from: only the text before the first `/` decides.
/// Without a `/`, or where that text holds neither `.` nor `:` and is not
/// `localhost`, the image is the whole reference on `docker.io`, whatever
/// follows the `/`; otherwise that text is the registry, port included, and
/// the rest after the `/` is the image.
pub proof fn lemma_repository_by_first_component(name: Seq<char>)
    ensures
        (forall|j: int| 0 <= j < name.len() ==> name[j] != '/') ==> spec_parse_repository(name) == (
            seq!['d', 'o', 'c', 'k', 'e', 'r', '.', 'i', 'o'],
            name,
        ),
        forall|i: int|
            0 <= i < name.len() && name[i] == '/' && (forall|j: int| 0 <= j < i ==> name[j] != '/')
                ==> {
                let c = name.subrange(0, i);
                if (exists|k: int| 0 <= k < i && (c[k] == '.' || c[k] == ':')) || c == seq![
                    'l',
                    'o',
                    'c',
                    'a',
                    'l',
                    'h',
                    'o',
                    's',
                    't',
                ] {
                    spec_parse_repository(name) == (c, name.subrange(i + 1, name.len() as int))
                } else {
                    spec_parse_repository(name) == (
                        seq!['d', 'o', 'c', 'k', 'e', 'r', '.', 'i', 'o'],
                        name,
                    )
                }
            },
{
    name.index_of_first_ensures('/');
    if forall|j: int| 0 <= j < name.len() ==> name[j] != '/' {
        if name.contains('/') {
            let k = choose|k: int| 0 <= k < name.len() && name[k] == '/';
            assert(name[k] != '/');
        }
    }
    assert forall|i: int|
        0 <= i < name.len() && name[i] == '/' && (forall|j: int| 0 <= j < i ==> name[j] != '/')
            implies {
            let c = name.subrange(0, i);
            if (exists|k: int| 0 <= k < i && (c[k] == '.' || c[k] == ':')) || c == seq![
                'l',
                'o',
                'c',
                'a',
                'l',
                'h',
                'o',
                's',
                't',
            ] {
                spec_parse_repository(name) == (c, name.subrange(i + 1, name.len() as int))
            } else {
                spec_parse_repository(name) == (
                    seq!['d', 'o', 'c', 'k', 'e', 'r', '.', 'i', 'o'],
                    name,
                )
            }
        } by {
        let idx = name.index_of_first('/').unwrap();
        if idx < i {
            assert(name[idx] != '/');
        }
        if i < idx {
            assert(name[i] != '/');
        }
        let c = name.subrange(0, i);
        if exists|k: int| 0 <= k < i && (c[k] == '.' || c[k] == ':') {
            let k = choose|k: int| 0 <= k < i && (c[k] == '.' || c[k] == ':');
            if c[k] == '.' {
                assert(c.contains('.'));
            } else {
                assert(c.contains(':'));
            }
        }
        if c.contains('.') {
            let k = choose|k: int| 0 <= k < c.len() && c[k] == '.';
            assert(0 <= k < i && (c[k] == '.' || c[k] == ':'));
        }
        if c.contains(':') {
            let k = choose|k: int| 0 <= k < c.len() && c[k] == ':';
            assert(0 <= k < i && (c[k] == '.' || c[k] == ':'));
        }
    }
}

/// Decoded credentials are the decoded UTF-8 text split at its first `:`:
/// the user name holds no `:`, and the user name, a `:` and the password give
/// the text back, so the password keeps every `:` after the first. There are
/// none exactly where the bytes are no UTF-8 or the text holds no `:`.
pub proof fn lemma_credentials_rebuild_decoded_text(decoded: Seq<u8>)
    ensures
        spec_credentials(decoded) is None <==> (!valid_utf8(decoded) || forall|j: int|
            0 <= j < decode_utf8(decoded).len() ==> decode_utf8(decoded)[j] != ':'),
        spec_credentials(decoded) matches Some((u, p)) ==> valid_utf8(decoded) && u + seq![':'] + p
            == decode_utf8(decoded) && (forall|j: int| 0 <= j < u.len() ==> u[j] != ':'),
{
    if valid_utf8(decoded) {
        let text = decode_utf8(decoded);
        lemma_split_credentials_rejoins(text);
        if let Some((u, p)) = spec_split_credentials(text) {
            assert forall|j: int| 0 <= j < u.len() implies u[j] != ':' by {
                if u[j] == ':' {
                    assert(u.contains(':'));
                }
            }
            assert(text[u.len() as int] == ':');
        } else {
            assert forall|j: int| 0 <= j < text.len() implies text[j] != ':' by {
                if text[j] == ':' {
                    assert(text.contains(':'));
                }
            }
        }
    }
}

/// The credentials to pull an image with are the configuration's entry for
/// the registry exactly as it was parsed from the image (port included): where
/// that entry decodes to `user:password` text, they are that user, password and
/// registry; without a configuration, or without an entry for that registry,
/// there are none.
pub proof fn lemma_registry_credentials_use_the_parsed_registry(
    image: Seq<char>,
    config: &DockerConfig,
    decoded: Seq<u8>,
    u: Seq<char>,
    p: Seq<char>,
)
    ensures
        spec_registry_credentials(image, None) is None,
        !config@.dom().contains(spec_parse_repository(image).0) ==> spec_registry_credentials(
            image,
            Some(config),
        ) is None,
        config@.dom().contains(spec_parse_repository(image).0) && base64_standard_decode(
            config@[spec_parse_repository(image).0],
        ) == Some(decoded) && valid_utf8(decoded) && decode_utf8(decoded) == u + seq![':'] + p && (
        forall|j: int| 0 <= j < u.len() ==> u[j] != ':') ==> spec_registry_credentials(
            image,
            Some(config),
        ) == Some((u, p, spec_parse_repository(image).0)),
{
    let text = u + seq![':'] + p;
    if forall|j: int| 0 <= j < u.len() ==> u[j] != ':' {
        text.index_of_first_ensures(':');
        assert(text[u.len() as int] == ':');
        let idx = text.index_of_first(':').unwrap();
        if idx < u.len() {
            assert(text[idx] == u[idx]);
        }
        assert(text.subrange(0, u.len() as int) =~= u);
        assert(text.subrange(u.len() as int + 1, text.len() as int) =~= p);
    }
}

} // verus!
