//! Persistent data root: `DATA_DIR` / `BIGFRED_DATA_DIR`, then `/data`.

use crate::fspath::FsPath;
use crate::fspath;
use crate::text::utf8_text;
use vstd::prelude::*;
use vstd::slice::*;
use vstd::string::*;
use vstd::utf8::*;

verus! {

/// Env var for the persistent data root (hub daemons).
pub const ENV_DATA_DIR: &'static str = "DATA_DIR";

/// Alternate env var used by some BigFred-branded tools.
pub const ENV_BIGFRED_DATA_DIR: &'static str = "BIGFRED_DATA_DIR";

/// Hub image default when no env var is set.
pub const DEFAULT_ROOT: &'static str = "/data";

/// Which environment variables participate in resolution.
#[derive(Debug, Clone, Copy, PartialEq, Eq, Structural)]
pub enum EnvPolicy {
    /// `DATA_DIR` only.
    DataDir,
    /// `BIGFRED_DATA_DIR`, then `DATA_DIR`.
    BigfredThenDataDir,
}

/// How a value from the environment is accepted.
#[derive(Debug, Clone, Copy, PartialEq, Eq, Structural)]
pub enum PathRule {
    /// Ignore empty and relative values (cannot silently redirect under cwd).
    AbsoluteOnly,
    /// Take the env string as-is, including relative paths.
    AcceptAny,
}

/// The values of the environment variables that matter here, where set.
#[derive(Debug, PartialEq, Eq)]
pub struct Environment {
    /// Value of [`ENV_DATA_DIR`].
    pub data_dir: Option<Vec<u8>>,
    /// Value of [`ENV_BIGFRED_DATA_DIR`].
    pub bigfred_data_dir: Option<Vec<u8>>,
}

/// What an [`Environment`] says.
pub struct EnvironmentView {
    pub data_dir: Option<Seq<u8>>,
    pub bigfred_data_dir: Option<Seq<u8>>,
}


impl View for Environment {
    type V = EnvironmentView;

    open spec fn view(&self) -> EnvironmentView {
        EnvironmentView {
            data_dir: match self.data_dir {
                Some(b) => Some(b@),
                None => None,
            },
            bigfred_data_dir: match self.bigfred_data_dir {
                Some(b) => Some(b@),
                None => None,
            },
        }
    }
}

/// Whether `rule` accepts a value. A value that is taken as a string must be
/// one.
pub open spec fn accepted(rule: PathRule, value: Seq<u8>) -> bool {
    match rule {
        PathRule::AbsoluteOnly => fspath::absolute(value),
        PathRule::AcceptAny => valid_utf8(value),
    }
}

/// The value of a variable, if it is set and accepted.
pub open spec fn usable(rule: PathRule, value: Option<Seq<u8>>) -> Option<Seq<u8>> {
    match value {
        Some(v) => if accepted(rule, v) {
            Some(v)
        } else {
            None
        },
        None => None,
    }
}

/// The data root: the first usable variable of the policy, else the default.
pub open spec fn resolved_root(env: EnvironmentView, policy: EnvPolicy, rule: PathRule) -> Seq<
    u8,
> {
    let data = match usable(rule, env.data_dir) {
        Some(v) => v,
        None => encode_utf8(DEFAULT_ROOT@),
    };
    match policy {
        EnvPolicy::DataDir => data,
        EnvPolicy::BigfredThenDataDir => match usable(rule, env.bigfred_data_dir) {
            Some(v) => v,
            None => data,
        },
    }
}

fn from_env(value: &Option<Vec<u8>>, rule: PathRule) -> (r: Option<FsPath>)
    ensures
        match r {
            Some(p) => usable(
                rule,
                match *value {
                    Some(v) => Some(v@),
                    None => None,
                },
            ) == Some(p@),
            None => usable(
                rule,
                match *value {
                    Some(v) => Some(v@),
                    None => None,
                },
            ) is None,
        },
{
    match value {
        Some(v) => {
            let p = FsPath::from_bytes(v.as_slice());
            let ok = match rule {
                PathRule::AbsoluteOnly => p.is_absolute(),
                PathRule::AcceptAny => utf8_text(v.as_slice()).is_some(),
            };
            if ok {
                Some(p)
            } else {
                None
            }
        },
        None => None,
    }
}

fn resolve_root(env: &Environment, policy: EnvPolicy, rule: PathRule) -> (r: FsPath)
    ensures
        r@ == resolved_root(env@, policy, rule),
{
    if policy == EnvPolicy::BigfredThenDataDir {
        if let Some(p) = from_env(&env.bigfred_data_dir, rule) {
            return p;
        }
    }
    match from_env(&env.data_dir, rule) {
        Some(p) => p,
        None => FsPath::new(DEFAULT_ROOT),
    }
}

/// The bytes of a list of path parts.
pub open spec fn part_bytes(parts: Seq<&[u8]>) -> Seq<Seq<u8>> {
    parts.map_values(|p: &[u8]| p@)
}

/// A path part without its leading separators, so that it starts nowhere.
pub open spec fn relative_part(part: Seq<u8>) -> Seq<u8>
    decreases part.len(),
{
    if fspath::absolute(part) {
        relative_part(part.skip(1))
    } else {
        part
    }
}

/// `part` placed under `base`, wherever it would start by itself.
pub open spec fn under(base: Seq<u8>, part: Seq<u8>) -> Seq<u8> {
    fspath::joined(base, relative_part(part))
}

/// `parts` placed under `base` one after the other.
pub open spec fn under_all(base: Seq<u8>, parts: Seq<Seq<u8>>) -> Seq<u8>
    decreases parts.len(),
{
    if parts.len() == 0 {
        base
    } else {
        under(under_all(base, parts.drop_last()), parts.last())
    }
}

/// Whether `path` is `root` or goes on from there with further segments.
pub open spec fn lies_under(root: Seq<u8>, path: Seq<u8>) -> bool {
    &&& root.is_prefix_of(path)
    &&& {
        ||| path.len() == root.len()
        ||| root.len() == 0
        ||| root.last() == fspath::SLASH
        ||| path[root.len() as int] == fspath::SLASH
    }
}

/// `<root>/etc/<name>.<ext>`.
pub open spec fn etc_file_path(root: Seq<u8>, name: Seq<char>, ext: Seq<char>) -> Seq<u8> {
    under(under(root, encode_utf8("etc"@)), encode_utf8(name + "."@ + ext))
}

/// `<root>/etc/<name>`.
pub open spec fn etc_dir_path(root: Seq<u8>, name: Seq<char>) -> Seq<u8> {
    under(under(root, encode_utf8("etc"@)), encode_utf8(name))
}

/// `<root>/run/<name>.sock`.
pub open spec fn run_socket_path(root: Seq<u8>, name: Seq<char>) -> Seq<u8> {
    under(under(root, encode_utf8("run"@)), encode_utf8(name + ".sock"@))
}

/// `<root>/run/<name>/<name>.sock`.
pub open spec fn run_nested_socket_path(root: Seq<u8>, name: Seq<char>) -> Seq<u8> {
    under(
        under(under(root, encode_utf8("run"@)), encode_utf8(name)),
        encode_utf8(name + ".sock"@),
    )
}

fn push_under(path: &mut FsPath, part: &[u8])
    ensures
        final(path)@ == under(old(path)@, part@),
{
    let n: usize = part.len();
    let mut from: usize = 0;
    assert(part@.skip(0) =~= part@);
    while from < n && part[from] == fspath::SLASH
        invariant
            from <= n == part@.len(),
            relative_part(part@.skip(from as int)) == relative_part(part@),
        decreases n - from,
    {
        assert(part@.skip(from as int)[0] == part@[from as int]);
        assert(part@.skip(from as int).skip(1) =~= part@.skip(from + 1));
        from += 1;
    }
    let rest = slice_subrange(part, from, n);
    proof {
        assert(rest@ =~= part@.skip(from as int));
        assert(rest@ == relative_part(part@));
    }
    path.push(rest);
}

/// Snapshot of the resolved data root.
#[derive(Debug, Clone, PartialEq, Eq)]
pub struct DataDir {
    root: FsPath,
}

impl View for DataDir {
    type V = Seq<u8>;

    closed spec fn view(&self) -> Seq<u8> {
        self.root@
    }
}

impl DataDir {
    /// Resolve from the environment.
    pub fn resolve(env: &Environment, policy: EnvPolicy, rule: PathRule) -> (r: Self)
        ensures
            r@ == resolved_root(env@, policy, rule),
            policy == EnvPolicy::BigfredThenDataDir ==> (env@.bigfred_data_dir matches Some(value)
                ==> (accepted(rule, value) ==> r@ == value)),
            policy == EnvPolicy::DataDir || !(env@.bigfred_data_dir matches Some(value)
                && accepted(rule, value)) ==> (match env@.data_dir {
                Some(value) => if accepted(rule, value) {
                    r@ == value
                } else {
                    r@ == encode_utf8(DEFAULT_ROOT@)
                },
                None => r@ == encode_utf8(DEFAULT_ROOT@),
            }),
    {
        DataDir { root: resolve_root(env, policy, rule) }
    }

    /// Use an explicit root (tests, CLI `--data-dir` after validation).
    pub fn from_path(path: FsPath) -> (r: Self)
        ensures
            r@ == path@,
    {
        DataDir { root: path }
    }

    /// Resolved root path.
    pub fn as_path(&self) -> (r: &FsPath)
        ensures
            r@ == self@,
    {
        &self.root
    }

    /// Join `parts` under the root. A part is taken without its leading
    /// separators, so none of them leads out of the root by starting elsewhere.
    pub fn join(&self, parts: &[&[u8]]) -> (r: FsPath)
        ensures
            r@ == under_all(self@, part_bytes(parts@)),
            self@.is_prefix_of(r@),
    {
        let mut out = self.root.clone();
        let mut i: usize = 0;
        let ghost all = part_bytes(parts@);
        assert(all.take(0) =~= Seq::<Seq<u8>>::empty());
        while i < parts.len()
            invariant
                i <= parts@.len(),
                all == part_bytes(parts@),
                out@ == under_all(self@, all.take(i as int)),
            decreases parts@.len() - i,
        {
            proof {
                assert(all.take(i + 1).drop_last() =~= all.take(i as int));
                assert(all.take(i + 1).last() == parts@[i as int]@);
            }
            push_under(&mut out, parts[i]);
            i += 1;
        }
        proof {
            assert(all.take(i as int) =~= all);
            lemma_joined_parts_lie_under_root(self@, all);
        }
        out
    }

    /// `$DATA_DIR/etc/{name}.{ext}` (e.g. `micronet.json`).
    pub fn etc_file(&self, name: &str, ext: &str) -> (r: FsPath)
        ensures
            r@ == etc_file_path(self@, name@, ext@),
            self@.is_prefix_of(r@),
    {
        let file = name.to_owned().concat(".").concat(ext);
        let mut out = self.root.clone();
        push_under(&mut out, "etc".as_bytes());
        push_under(&mut out, file.as_str().as_bytes());
        proof {
            lemma_paths_lie_under_root(self@, name@, ext@);
        }
        out
    }

    /// `$DATA_DIR/etc/{name}/`.
    pub fn etc_dir(&self, name: &str) -> (r: FsPath)
        ensures
            r@ == etc_dir_path(self@, name@),
            self@.is_prefix_of(r@),
    {
        let mut out = self.root.clone();
        push_under(&mut out, "etc".as_bytes());
        push_under(&mut out, name.as_bytes());
        proof {
            lemma_paths_lie_under_root(self@, name@, name@);
        }
        out
    }

    /// `$DATA_DIR/run/{name}.sock`.
    pub fn run_socket(&self, name: &str) -> (r: FsPath)
        ensures
            r@ == run_socket_path(self@, name@),
            self@.is_prefix_of(r@),
    {
        let file = name.to_owned().concat(".sock");
        let mut out = self.root.clone();
        push_under(&mut out, "run".as_bytes());
        push_under(&mut out, file.as_str().as_bytes());
        proof {
            lemma_paths_lie_under_root(self@, name@, name@);
        }
        out
    }

    /// `$DATA_DIR/run/{name}/{name}.sock`.
    pub fn run_nested_socket(&self, name: &str) -> (r: FsPath)
        ensures
            r@ == run_nested_socket_path(self@, name@),
            self@.is_prefix_of(r@),
    {
        let file = name.to_owned().concat(".sock");
        let mut out = self.root.clone();
        push_under(&mut out, "run".as_bytes());
        push_under(&mut out, name.as_bytes());
        push_under(&mut out, file.as_str().as_bytes());
        proof {
            lemma_paths_lie_under_root(self@, name@, name@);
        }
        out
    }
}

/// Root under [`EnvPolicy::DataDir`] and [`PathRule::AbsoluteOnly`].
pub fn root(env: &Environment) -> (r: FsPath)
    ensures
        r@ == resolved_root(env@, EnvPolicy::DataDir, PathRule::AbsoluteOnly),
{
    DataDir::resolve(env, EnvPolicy::DataDir, PathRule::AbsoluteOnly).as_path().clone()
}

/// Join `parts` under [`root`].
pub fn path(env: &Environment, parts: &[&[u8]]) -> (r: FsPath)
    ensures
        r@ == under_all(
            resolved_root(env@, EnvPolicy::DataDir, PathRule::AbsoluteOnly),
            part_bytes(parts@),
        ),
        resolved_root(env@, EnvPolicy::DataDir, PathRule::AbsoluteOnly).is_prefix_of(r@),
{
    DataDir::from_path(root(env)).join(parts)
}

/// Override [`ENV_DATA_DIR`] (absolute paths only).
pub fn set_root(env: &mut Environment, path: &FsPath)
    ensures
        final(env)@ == (if fspath::absolute(path@) {
            EnvironmentView { data_dir: Some(path@), ..old(env)@ }
        } else {
            old(env)@
        }),
{
    if path.is_absolute() {
        env.data_dir = Some(slice_to_vec(path.as_bytes()));
    }
}

/// After the root was set to an absolute path, it is that path.
pub proof fn lemma_root_is_what_was_set(env: EnvironmentView, path: Seq<u8>)
    requires
        fspath::absolute(path),
    ensures
        resolved_root(
            EnvironmentView { data_dir: Some(path), ..env },
            EnvPolicy::DataDir,
            PathRule::AbsoluteOnly,
        ) == path,
{
}

/// Under [`PathRule::AbsoluteOnly`] the root is absolute, whatever the
/// environment holds: it cannot silently redirect under the current directory.
pub proof fn lemma_root_is_absolute(env: EnvironmentView, policy: EnvPolicy)
    ensures
        fspath::absolute(resolved_root(env, policy, PathRule::AbsoluteOnly)),
{
    reveal_strlit("/data");
    lemma_text_starts_at_root(DEFAULT_ROOT@);
}

/// A text spells an absolute path exactly if its first character is a slash.
pub proof fn lemma_text_starts_at_root(t: Seq<char>)
    ensures
        fspath::absolute(encode_utf8(t)) == (t.len() > 0 && t[0] == '/'),
{
    if t.len() > 0 {
        let c = t[0] as u32;
        char_is_scalar(t[0]);
        char_u32_cast(t[0], c);
        assert(encode_utf8(t)[0] == encode_scalar(c)[0]);
        assert(c <= 0x7F ==> ((c & 0x7F) as u8 == 0x2Fu8 <==> c == 0x2F)) by (bit_vector);
        assert((0xC0u8 | ((c >> 6) & 0x1F) as u8) >= 0xC0u8) by (bit_vector);
        assert((0xE0u8 | ((c >> 12) & 0x0F) as u8) >= 0xE0u8) by (bit_vector);
        assert((0xF0u8 | ((c >> 18) & 0x7) as u8) >= 0xF0u8) by (bit_vector);
    }
}

proof fn lemma_relative_part(part: Seq<u8>)
    ensures
        !fspath::absolute(relative_part(part)),
    decreases part.len(),
{
    if fspath::absolute(part) {
        lemma_relative_part(part.skip(1));
    }
}

proof fn lemma_under_keeps_root(root: Seq<u8>, base: Seq<u8>, part: Seq<u8>)
    requires
        lies_under(root, base),
    ensures
        lies_under(root, under(base, part)),
{
    lemma_relative_part(part);
    let path = under(base, part);
    assert(base.is_prefix_of(path));
    assert(forall|i: int| 0 <= i < root.len() ==> path[i] == base[i]);
}

/// Whatever the parts are, absolute ones included, joining them stays under the
/// root, and joining none is the root.
pub proof fn lemma_joined_parts_lie_under_root(root: Seq<u8>, parts: Seq<Seq<u8>>)
    ensures
        lies_under(root, under_all(root, parts)),
        parts.len() == 0 ==> under_all(root, parts) == root,
    decreases parts.len(),
{
    if parts.len() > 0 {
        lemma_joined_parts_lie_under_root(root, parts.drop_last());
        lemma_under_keeps_root(root, under_all(root, parts.drop_last()), parts.last());
    }
}

/// Parts that start nowhere by themselves are joined as paths are.
pub proof fn lemma_relative_parts_join_as_paths(root: Seq<u8>, parts: Seq<Seq<u8>>)
    requires
        forall|i: int| 0 <= i < parts.len() ==> !fspath::absolute(#[trigger] parts[i]),
    ensures
        under_all(root, parts) == fspath::joined_all(root, parts),
    decreases parts.len(),
{
    if parts.len() > 0 {
        let head = parts.drop_last();
        assert forall|i: int| 0 <= i < head.len() implies !fspath::absolute(#[trigger] head[i]) by {
            assert(head[i] == parts[i]);
        }
        lemma_relative_parts_join_as_paths(root, head);
        assert(!fspath::absolute(parts[parts.len() - 1]));
    }
}

/// Configuration files, configuration directories and sockets lie under the
/// root, whatever the name.
pub proof fn lemma_paths_lie_under_root(root: Seq<u8>, name: Seq<char>, ext: Seq<char>)
    ensures
        lies_under(root, etc_file_path(root, name, ext)),
        lies_under(root, etc_dir_path(root, name)),
        lies_under(root, run_socket_path(root, name)),
        lies_under(root, run_nested_socket_path(root, name)),
{
    let etc = under(root, encode_utf8("etc"@));
    let run = under(root, encode_utf8("run"@));
    lemma_under_keeps_root(root, root, encode_utf8("etc"@));
    lemma_under_keeps_root(root, root, encode_utf8("run"@));
    lemma_under_keeps_root(root, etc, encode_utf8(name + "."@ + ext));
    lemma_under_keeps_root(root, etc, encode_utf8(name));
    lemma_under_keeps_root(root, run, encode_utf8(name + ".sock"@));
    lemma_under_keeps_root(root, run, encode_utf8(name));
    lemma_under_keeps_root(root, under(run, encode_utf8(name)), encode_utf8(name + ".sock"@));
}

/// Without a usable `BIGFRED_DATA_DIR` both policies agree, whatever `DATA_DIR`
/// holds; under [`EnvPolicy::DataDir`] that variable never counts.
pub proof fn lemma_policies_agree_without_bigfred(
    env: EnvironmentView,
    other: Option<Seq<u8>>,
    rule: PathRule,
)
    ensures
        (env.bigfred_data_dir matches Some(value) ==> !accepted(rule, value)) ==> resolved_root(
            env,
            EnvPolicy::BigfredThenDataDir,
            rule,
        ) == resolved_root(env, EnvPolicy::DataDir, rule),
        resolved_root(
            EnvironmentView { bigfred_data_dir: other, ..env },
            EnvPolicy::DataDir,
            rule,
        ) == resolved_root(env, EnvPolicy::DataDir, rule),
{
}

/// An accepted variable is the root as it stands: `BIGFRED_DATA_DIR` before
/// everything under its policy, and `DATA_DIR` wherever that one does not count.
/// With neither, the root is `/data`.
pub proof fn lemma_accepted_variable_is_the_root(
    env: EnvironmentView,
    policy: EnvPolicy,
    rule: PathRule,
    value: Seq<u8>,
)
    ensures
        accepted(rule, value) && env.bigfred_data_dir == Some(value) ==> resolved_root(
            env,
            EnvPolicy::BigfredThenDataDir,
            rule,
        ) == value,
        accepted(rule, value) && env.data_dir == Some(value) ==> resolved_root(
            env,
            EnvPolicy::DataDir,
            rule,
        ) == value,
        accepted(rule, value) && env.data_dir == Some(value) && (env.bigfred_data_dir
            matches Some(first) ==> !accepted(rule, first)) ==> resolved_root(env, policy, rule)
            == value,
        (env.data_dir matches Some(v) ==> !accepted(rule, v)) && (env.bigfred_data_dir
            matches Some(v) ==> !accepted(rule, v)) ==> resolved_root(env, policy, rule)
            == encode_utf8("/data"@),
{
}

/// A variable that is unset and one that is not accepted come to the same.
pub proof fn lemma_rejected_variable_counts_as_unset(
    env: EnvironmentView,
    policy: EnvPolicy,
    rule: PathRule,
    value: Seq<u8>,
)
    requires
        !accepted(rule, value),
    ensures
        usable(rule, Some(value)) is None,
        usable(rule, None) is None,
        resolved_root(EnvironmentView { data_dir: Some(value), ..env }, policy, rule)
            == resolved_root(EnvironmentView { data_dir: None, ..env }, policy, rule),
        resolved_root(EnvironmentView { bigfred_data_dir: Some(value), ..env }, policy, rule)
            == resolved_root(EnvironmentView { bigfred_data_dir: None, ..env }, policy, rule),
{
}

/// What the rules accept: one, whatever starts with a slash, text or not; the
/// other, any text at all, the empty one and relative ones included.
pub proof fn lemma_what_rules_accept(value: Seq<u8>, text: Seq<char>)
    ensures
        accepted(PathRule::AbsoluteOnly, seq!['/' as u8] + value),
        accepted(PathRule::AbsoluteOnly, value) ==> value.len() > 0 && value[0] == '/' as u8,
        accepted(PathRule::AcceptAny, encode_utf8(text)),
        accepted(PathRule::AcceptAny, value) <==> valid_utf8(value),
        accepted(PathRule::AbsoluteOnly, encode_utf8(text)) <==> text.len() > 0 && text[0] == '/',
{
    assert((seq!['/' as u8] + value)[0] == '/' as u8);
    encode_utf8_valid_utf8(text);
    lemma_text_starts_at_root(text);
}

/// Separators in front of a part do not matter, and a part without any is joined
/// as it is.
pub proof fn lemma_leading_separators_do_not_matter(base: Seq<u8>, part: Seq<u8>)
    ensures
        under(base, seq!['/' as u8] + part) == under(base, part),
        !(part.len() > 0 && part[0] == '/' as u8) ==> under(base, part) == fspath::joined(
            base,
            part,
        ),
{
    let led = seq!['/' as u8] + part;
    assert(led[0] == fspath::SLASH);
    assert(led.skip(1) =~= part);
}

/// Parts can be joined in two goes, and one part is placed under the root.
pub proof fn lemma_parts_are_joined_in_order(
    root: Seq<u8>,
    first: Seq<Seq<u8>>,
    more: Seq<Seq<u8>>,
    part: Seq<u8>,
)
    ensures
        under_all(root, first + more) == under_all(under_all(root, first), more),
        under_all(root, seq![part]) == under(root, part),
        under_all(root, first.push(part)) == under(under_all(root, first), part),
    decreases more.len(),
{
    assert(seq![part].drop_last() =~= Seq::<Seq<u8>>::empty());
    assert(under_all(root, seq![part].drop_last()) == root);
    assert(first.push(part).drop_last() =~= first);
    if more.len() == 0 {
        assert(first + more =~= first);
    } else {
        lemma_parts_are_joined_in_order(root, first, more.drop_last(), part);
        assert((first + more).drop_last() =~= first + more.drop_last());
    }
}

/// Where the files of a daemon are, in terms of plain joining: configuration
/// under `etc`, sockets under `run`, for every name that starts nowhere by
/// itself.
pub proof fn lemma_daemon_paths(root: Seq<u8>, name: Seq<char>, ext: Seq<char>)
    requires
        name.len() > 0 ==> name[0] != '/',
    ensures
        etc_file_path(root, name, ext) == fspath::joined(
            fspath::joined(root, encode_utf8("etc"@)),
            encode_utf8(name + "."@ + ext),
        ),
        etc_dir_path(root, name) == fspath::joined(
            fspath::joined(root, encode_utf8("etc"@)),
            encode_utf8(name),
        ),
        etc_file_path(root, name, ext) == etc_dir_path(root, name + "."@ + ext),
        run_socket_path(root, name) == fspath::joined(
            fspath::joined(root, encode_utf8("run"@)),
            encode_utf8(name + ".sock"@),
        ),
        run_nested_socket_path(root, name) == fspath::joined(
            fspath::joined(fspath::joined(root, encode_utf8("run"@)), encode_utf8(name)),
            encode_utf8(name + ".sock"@),
        ),
{
    reveal_strlit("etc");
    reveal_strlit("run");
    lemma_text_starts_at_root("etc"@);
    lemma_text_starts_at_root("run"@);
    lemma_text_starts_at_root(name);
    lemma_text_starts_at_root(name + "."@ + ext);
    lemma_text_starts_at_root(name + ".sock"@);
    reveal_strlit(".");
    reveal_strlit(".sock");
    if name.len() > 0 {
        assert((name + "."@ + ext)[0] == name[0]);
        assert((name + ".sock"@)[0] == name[0]);
    } else {
        assert((name + "."@ + ext)[0] == '.');
        assert((name + ".sock"@)[0] == '.');
    }
}

/// A slash in front of a name does not matter to where its files are.
pub proof fn lemma_daemon_paths_stay_with_slash(root: Seq<u8>, name: Seq<char>, ext: Seq<char>)
    ensures
        etc_file_path(root, seq!['/'] + name, ext) == etc_file_path(root, name, ext),
        etc_dir_path(root, seq!['/'] + name) == etc_dir_path(root, name),
        run_socket_path(root, seq!['/'] + name) == run_socket_path(root, name),
        run_nested_socket_path(root, seq!['/'] + name) == run_nested_socket_path(root, name),
{
    let etc = under(root, encode_utf8("etc"@));
    let run = under(root, encode_utf8("run"@));
    let slashed = seq!['/'] + name;
    assert(slashed + "."@ + ext =~= seq!['/'] + (name + "."@ + ext));
    assert(slashed + ".sock"@ =~= seq!['/'] + (name + ".sock"@));
    lemma_slash_is_a_separator(name);
    lemma_slash_is_a_separator(name + "."@ + ext);
    lemma_slash_is_a_separator(name + ".sock"@);
    lemma_leading_separators_do_not_matter(etc, encode_utf8(name + "."@ + ext));
    lemma_leading_separators_do_not_matter(etc, encode_utf8(name));
    lemma_leading_separators_do_not_matter(run, encode_utf8(name + ".sock"@));
    lemma_leading_separators_do_not_matter(run, encode_utf8(name));
    lemma_leading_separators_do_not_matter(
        under(run, encode_utf8(name)),
        encode_utf8(name + ".sock"@),
    );
}

proof fn lemma_slash_is_a_separator(t: Seq<char>)
    ensures
        encode_utf8(seq!['/'] + t) == seq!['/' as u8] + encode_utf8(t),
{
    let s = seq!['/'] + t;
    assert(s.drop_first() =~= t);
    let c = '/' as u32;
    assert(s[0] as u32 == c);
    assert((c & 0x7F) as u8 == 0x2Fu8) by (bit_vector)
        requires
            c == 0x2F,
    ;
    assert(encode_scalar(c) =~= seq!['/' as u8]);
}

/// A list of parts has the bytes of each, in the same order.
pub proof fn lemma_part_bytes(parts: Seq<&[u8]>)
    ensures
        part_bytes(parts).len() == parts.len(),
        forall|i: int| 0 <= i < parts.len() ==> #[trigger] part_bytes(parts)[i] == parts[i]@,
{
}

} // verus!
