use vstd::prelude::*;
use vstd::slice::slice_subrange;

verus! {

/// Line feed, `\n`.
pub const NEWLINE: u8 = 10;

/// Carriage return, `\r`.
pub const CARRIAGE_RETURN: u8 = 13;

/// The comment marker `#`.
pub const HASH: u8 = 35;

/// The equals sign `=`.
pub const EQUALS: u8 = 61;

/// What the resolver front end (`uv pip`) reports for one line of its
/// output: either `name==version`, or a bare unresolved identifier.
#[derive(Debug, Clone, PartialEq, Eq)]
pub enum Dependency {
    Resolved { name: String, version: String },
    Unresolved { identifier: String },
}

/// The mathematical shape of a parsed dependency line: the same two cases,
/// over sequences of characters.
pub enum DependencyModel {
    Resolved { name: Seq<char>, version: Seq<char> },
    Unresolved { identifier: Seq<char> },
}

impl View for Dependency {
    type V = DependencyModel;

    open spec fn view(&self) -> DependencyModel {
        match self {
            Dependency::Resolved { name, version } => DependencyModel::Resolved {
                name: name@,
                version: version@,
            },
            Dependency::Unresolved { identifier } => DependencyModel::Unresolved {
                identifier: identifier@,
            },
        }
    }
}

/// The view of a parsed dependency list.
pub open spec fn deps_view(deps: Seq<Dependency>) -> Seq<DependencyModel> {
    deps.map_values(|d: Dependency| d@)
}

/// The characters that a byte sequence decodes to, reading it as UTF-8 and
/// replacing every invalid sequence, exactly as `String::from_utf8_lossy`
/// does. The decoding depends on the bytes alone.
pub uninterp spec fn lossy_of(bytes: Seq<u8>) -> Seq<char>;

/// Relies on `String::from_utf8_lossy`: the result is a pure function of
/// the bytes (valid UTF-8 decodes to its characters, every maximal invalid
/// sequence becomes one replacement character).
#[verifier::external_body]
fn lossy_string(bytes: &[u8]) -> (s: String)
    ensures
        s@ == lossy_of(bytes@),
{
    String::from_utf8_lossy(bytes).into_owned()
}

/// The first position of `b` in `s`, or `s.len()` if `b` does not occur.
pub open spec fn find_byte(s: Seq<u8>, b: u8) -> nat
    decreases s.len(),
{
    if s.len() == 0 {
        0
    } else if s[0] == b {
        0
    } else {
        find_byte(s.subrange(1, s.len() as int), b) + 1
    }
}

/// `s` holds two adjacent equals signs starting at position `k`.
pub open spec fn eqeq_at(s: Seq<u8>, k: int) -> bool {
    0 <= k && k + 2 <= s.len() && s[k] == EQUALS && s[k + 1] == EQUALS
}

/// The first position of `==` in `s`, or `s.len()` if it does not occur.
pub open spec fn find_eqeq(s: Seq<u8>) -> nat
    decreases s.len(),
{
    if s.len() < 2 {
        s.len()
    } else if s[0] == EQUALS && s[1] == EQUALS {
        0
    } else {
        find_eqeq(s.subrange(1, s.len() as int)) + 1
    }
}

/// `s` contains the separator `==` somewhere.
pub open spec fn has_eqeq(s: Seq<u8>) -> bool {
    find_eqeq(s) + 2 <= s.len()
}

/// `s` contains the byte `b` somewhere.
pub open spec fn contains_byte(s: Seq<u8>, b: u8) -> bool {
    exists|k: int| 0 <= k < s.len() && s[k] == b
}

/// A line that ends in a carriage return loses it, exactly as `str::lines`
/// treats a `\r\n` line ending.
pub open spec fn strip_cr(line: Seq<u8>) -> Seq<u8> {
    if line.len() > 0 && line[line.len() - 1] == CARRIAGE_RETURN {
        line.drop_last()
    } else {
        line
    }
}

/// What one output line contributes: nothing if it holds a comment marker,
/// a resolved dependency if it holds `==` (the name before the first `==`,
/// the version between the first and the second), and an unresolved
/// identifier otherwise.
pub open spec fn parse_line(line: Seq<u8>) -> Seq<DependencyModel> {
    if contains_byte(line, HASH) {
        Seq::empty()
    } else if has_eqeq(line) {
        let name = line.subrange(0, find_eqeq(line) as int);
        let rest = line.subrange(find_eqeq(line) as int + 2, line.len() as int);
        seq![
            DependencyModel::Resolved {
                name: lossy_of(name),
                version: lossy_of(rest.subrange(0, find_eqeq(rest) as int)),
            },
        ]
    } else {
        seq![DependencyModel::Unresolved { identifier: lossy_of(line) }]
    }
}

/// What the whole output contributes: the contributions of its lines, in
/// order. Lines are separated by `\n`; a line terminated by `\r\n` loses
/// the `\r`; a final line without terminator is kept as it stands.
pub open spec fn parse_bytes(s: Seq<u8>) -> Seq<DependencyModel>
    decreases s.len(),
{
    if s.len() == 0 {
        Seq::empty()
    } else {
        let i = find_byte(s, NEWLINE);
        if i < s.len() {
            parse_line(strip_cr(s.subrange(0, i as int))) + parse_bytes(
                s.subrange(i as int + 1, s.len() as int),
            )
        } else {
            parse_line(s)
        }
    }
}

/// `find_byte` names the first occurrence: it is in bounds or just past
/// them, it hits `b` when in bounds, and nothing before it is `b`.
pub proof fn lemma_find_byte(s: Seq<u8>, b: u8)
    ensures
        find_byte(s, b) <= s.len(),
        find_byte(s, b) < s.len() ==> s[find_byte(s, b) as int] == b,
        forall|k: int| 0 <= k < find_byte(s, b) as int ==> s[k] != b,
    decreases s.len(),
{
    if s.len() == 0 {
    } else if s[0] == b {
    } else {
        let sub = s.subrange(1, s.len() as int);
        lemma_find_byte(sub, b);
        assert forall|k: int| 0 <= k < find_byte(s, b) as int implies s[k] != b by {
            if k > 0 {
                assert(sub[k - 1] == s[k]);
            }
        }
    }
}

/// A scan that finds no `b` before `j`, and `b` at `j` if `j` is in
/// bounds, has found exactly `find_byte`.
pub proof fn lemma_find_byte_unique(s: Seq<u8>, b: u8, j: int)
    requires
        0 <= j <= s.len(),
        forall|k: int| 0 <= k < j ==> s[k] != b,
        j < s.len() ==> s[j] == b,
    ensures
        find_byte(s, b) == j,
{
    lemma_find_byte(s, b);
    let f = find_byte(s, b) as int;
    if f < j {
        assert(s[f] == b);
        assert(s[f] != b);
    } else if f > j {
        assert(s[j] != b);
    }
}

/// `find_eqeq` names the first occurrence of the separator: it is a match
/// position or the length, and nothing before it matches.
pub proof fn lemma_find_eqeq(s: Seq<u8>)
    ensures
        find_eqeq(s) <= s.len(),
        find_eqeq(s) == s.len() || find_eqeq(s) + 2 <= s.len(),
        find_eqeq(s) + 2 <= s.len() ==> eqeq_at(s, find_eqeq(s) as int),
        forall|k: int| 0 <= k < find_eqeq(s) as int ==> !eqeq_at(s, k),
    decreases s.len(),
{
    if s.len() < 2 {
    } else if s[0] == EQUALS && s[1] == EQUALS {
    } else {
        let sub = s.subrange(1, s.len() as int);
        lemma_find_eqeq(sub);
        assert forall|k: int| 0 <= k < find_eqeq(s) as int implies !eqeq_at(s, k) by {
            if k > 0 && eqeq_at(s, k) {
                assert(sub[k - 1] == s[k]);
                assert(sub[k] == s[k + 1]);
                assert(eqeq_at(sub, k - 1));
            }
        }
    }
}

/// A scan that sees no separator before `j`, and one at `j` unless `j` is
/// the length, has found exactly `find_eqeq`.
pub proof fn lemma_find_eqeq_unique(s: Seq<u8>, j: int)
    requires
        0 <= j <= s.len(),
        forall|k: int| 0 <= k < j ==> !eqeq_at(s, k),
        j + 2 <= s.len() ==> eqeq_at(s, j),
        j + 2 <= s.len() || j == s.len(),
    ensures
        find_eqeq(s) == j,
{
    lemma_find_eqeq(s);
    let f = find_eqeq(s) as int;
    if f < j {
        assert(f + 2 <= s.len());
        assert(eqeq_at(s, f));
        assert(!eqeq_at(s, f));
    } else if f > j {
        assert(!eqeq_at(s, j));
    }
}

/// Parse one output line. Nothing comes of a comment line; `name==version`
/// resolves; anything else is kept as an unresolved identifier.
fn parse_line_exec(line: &[u8]) -> (dep: Option<Dependency>)
    ensures
        match dep {
            Some(d) => parse_line(line@) == seq![d@],
            None => parse_line(line@).len() == 0,
        },
{
    let n = line.len();
    let mut k: usize = 0;
    while k < n
        invariant
            k <= n,
            n == line@.len(),
            forall|m: int| 0 <= m < k ==> line@[m] != HASH,
        decreases n - k,
    {
        if line[k] == HASH {
            assert(contains_byte(line@, HASH)) by {
                assert(line@[k as int] == HASH);
            }
            return None;
        }
        k += 1;
    }
    assert(!contains_byte(line@, HASH));
    let mut i: usize = 0;
    let mut found: bool = false;
    while !found && i < n && i + 1 < n
        invariant
            i <= n,
            n == line@.len(),
            forall|m: int| 0 <= m < i ==> !eqeq_at(line@, m),
            found ==> eqeq_at(line@, i as int),
        decreases n - i, (if found { 0int } else { 1int }),
    {
        if line[i] == EQUALS && line[i + 1] == EQUALS {
            found = true;
        } else {
            assert(!eqeq_at(line@, i as int));
            i += 1;
        }
    }
    if found {
        proof {
            lemma_find_eqeq_unique(line@, i as int);
        }
        let name = lossy_string(slice_subrange(line, 0, i));
        let ghost rest = line@.subrange(i as int + 2, n as int);
        let mut j: usize = i + 2;
        let mut found2: bool = false;
        while !found2 && j < n && j + 1 < n
            invariant
                i + 2 <= j <= n,
                n == line@.len(),
                forall|m: int| i + 2 <= m < j ==> !eqeq_at(line@, m),
                found2 ==> eqeq_at(line@, j as int),
            decreases n - j, (if found2 { 0int } else { 1int }),
        {
            if line[j] == EQUALS && line[j + 1] == EQUALS {
                found2 = true;
            } else {
                assert(!eqeq_at(line@, j as int));
                j += 1;
            }
        }
        let version_end: usize = if found2 {
            j
        } else {
            n
        };
        proof {
            assert forall|k2: int| 0 <= k2 < version_end - (i + 2) implies !eqeq_at(rest, k2) by {
                if eqeq_at(rest, k2) {
                    assert(rest[k2] == line@[k2 + i + 2]);
                    assert(rest[k2 + 1] == line@[k2 + i + 3]);
                    assert(eqeq_at(line@, k2 + i + 2));
                }
            }
            if found2 {
                assert(rest[j - (i + 2)] == line@[j as int]);
                assert(rest[j - (i + 2) + 1] == line@[j as int + 1]);
                assert(eqeq_at(rest, j - (i + 2)));
            }
            lemma_find_eqeq_unique(rest, version_end - (i + 2));
        }
        let version = lossy_string(slice_subrange(line, i + 2, version_end));
        proof {
            assert(rest.subrange(0, version_end - (i + 2)) =~= line@.subrange(
                i as int + 2,
                version_end as int,
            ));
        }
        Some(Dependency::Resolved { name, version })
    } else {
        proof {
            assert forall|m: int| 0 <= m < n implies !eqeq_at(line@, m) by {
                if m >= i {
                    assert(m + 2 > n);
                }
            }
            lemma_find_eqeq_unique(line@, n as int);
        }
        Some(Dependency::Unresolved { identifier: lossy_string(line) })
    }
}

/// The invocations of the resolver front end that the tool issues.
pub enum UVArgs {
    /// List the packages installed in the current environment.
    Freeze,
    /// Resolve the given requirements or project file.
    Compile { filename: String, all_extras: bool, index_url: Option<String> },
}

/// The argument list, after the program name, for one invocation of the
/// resolver front end.
pub open spec fn command_args_model(args: UVArgs) -> Seq<Seq<char>> {
    match args {
        UVArgs::Freeze => seq!["pip"@, "freeze"@],
        UVArgs::Compile { filename, all_extras, index_url } => {
            let base = seq!["pip"@, "compile"@, filename@];
            if all_extras {
                base.push("--all-extras"@)
            } else {
                match index_url {
                    Some(url) => base + seq!["--index-url"@, url@],
                    None => base,
                }
            }
        },
    }
}

/// The resolver front end. It owns no state; it turns an invocation into a
/// command line, and the command's raw output into dependencies.
pub struct UV;

impl UV {
    pub fn new() -> Self {
        UV
    }

    /// The arguments to hand to the `uv` command for the given invocation.
    pub fn command_args(&self, args: UVArgs) -> (argv: Vec<String>)
        ensures
            argv@.map_values(|a: String| a@) == command_args_model(args),
    {
        let mut argv: Vec<String> = Vec::new();
        argv.push("pip".to_owned());
        match args {
            UVArgs::Freeze => {
                argv.push("freeze".to_owned());
            },
            UVArgs::Compile { filename, all_extras, index_url } => {
                argv.push("compile".to_owned());
                argv.push(filename);
                if all_extras {
                    argv.push("--all-extras".to_owned());
                } else {
                    match index_url {
                        Some(url) => {
                            argv.push("--index-url".to_owned());
                            argv.push(url);
                        },
                        None => {},
                    }
                }
            },
        }
        proof {
            assert(argv@.map_values(|a: String| a@) =~= command_args_model(args));
        }
        argv
    }

    /// Parse the raw standard output of the resolver front end: one
    /// dependency per non-comment line, `name==version` lines resolved,
    /// all others kept as unresolved identifiers.
    pub fn parse(&self, output: &[u8]) -> (deps: Vec<Dependency>)
        ensures
            deps_view(deps@) == parse_bytes(output@),
    {
        let n = output.len();
        let mut deps: Vec<Dependency> = Vec::new();
        let mut pos: usize = 0;
        proof {
            assert(deps_view(deps@) + parse_bytes(output@.subrange(0, n as int)) =~= parse_bytes(
                output@.subrange(0, n as int),
            ));
            assert(output@.subrange(0, n as int) =~= output@);
        }
        while pos < n
            invariant
                pos <= n,
                n == output@.len(),
                deps_view(deps@) + parse_bytes(output@.subrange(pos as int, n as int))
                    == parse_bytes(output@),
            decreases n - pos,
        {
            let ghost s_rem = output@.subrange(pos as int, n as int);
            let mut end: usize = pos;
            while end < n && output[end] != NEWLINE
                invariant
                    pos <= end <= n,
                    n == output@.len(),
                    forall|m: int| pos <= m < end ==> output@[m] != NEWLINE,
                decreases n - end,
            {
                end += 1;
            }
            proof {
                assert forall|k: int| 0 <= k < end - pos implies s_rem[k] != NEWLINE by {
                    assert(s_rem[k] == output@[k + pos]);
                }
                if end < n {
                    assert(s_rem[end - pos] == output@[end as int]);
                }
                lemma_find_byte_unique(s_rem, NEWLINE, end - pos);
            }
            if end < n {
                let mut line_end: usize = end;
                if line_end > pos && output[line_end - 1] == CARRIAGE_RETURN {
                    line_end -= 1;
                }
                let line = slice_subrange(output, pos, line_end);
                proof {
                    assert(s_rem.subrange(0, end - pos) =~= output@.subrange(
                        pos as int,
                        end as int,
                    ));
                    assert(strip_cr(output@.subrange(pos as int, end as int)) =~= line@);
                    assert(s_rem.subrange(end - pos + 1, s_rem.len() as int) =~= output@.subrange(
                        end as int + 1,
                        n as int,
                    ));
                    assert(parse_bytes(s_rem) == parse_line(line@) + parse_bytes(
                        output@.subrange(end as int + 1, n as int),
                    ));
                }
                let ghost before = deps@;
                match parse_line_exec(line) {
                    Some(d) => {
                        deps.push(d);
                        proof {
                            assert(deps_view(deps@) =~= deps_view(before).push(d@));
                            assert(deps_view(before).push(d@) =~= deps_view(before) + seq![d@]);
                        }
                    },
                    None => {},
                }
                proof {
                    assert(deps_view(deps@) + parse_bytes(
                        output@.subrange(end as int + 1, n as int),
                    ) =~= deps_view(before) + parse_bytes(s_rem));
                }
                pos = end + 1;
            } else {
                proof {
                    assert(parse_bytes(s_rem) == parse_line(s_rem));
                }
                let line = slice_subrange(output, pos, n);
                let ghost before = deps@;
                match parse_line_exec(line) {
                    Some(d) => {
                        deps.push(d);
                        proof {
                            assert(deps_view(deps@) =~= deps_view(before).push(d@));
                            assert(deps_view(before).push(d@) =~= deps_view(before) + seq![d@]);
                        }
                    },
                    None => {},
                }
                proof {
                    assert(parse_bytes(output@.subrange(n as int, n as int)) == Seq::<
                        DependencyModel,
                    >::empty());
                    assert(deps_view(deps@) + parse_bytes(output@.subrange(n as int, n as int))
                        =~= deps_view(before) + parse_line(s_rem));
                }
                pos = n;
            }
        }
        proof {
            assert(parse_bytes(output@.subrange(n as int, n as int)) == Seq::<
                DependencyModel,
            >::empty());
            assert(deps_view(deps@) + parse_bytes(output@.subrange(n as int, n as int))
                =~= deps_view(deps@));
        }
        deps
    }
}

} // verus!
