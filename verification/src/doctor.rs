//! Advisory repository health: the language server worth installing for each
//! discovered language, and how a located server command is judged.

use vstd::prelude::*;

use crate::discovery::Workspace;
use crate::text::views;

verus! {

/// A language server relevant to a repository language.
#[derive(Debug, Clone, Copy, PartialEq, Eq)]
pub struct LanguageServer {
    pub language: &'static str,
    pub command: &'static str,
    pub install: &'static str,
    pub note: Option<&'static str>,
}

/// What probing a server command found, without starting it.
#[derive(Debug, Clone, Copy, PartialEq, Eq, Structural)]
pub enum ProbeStatus {
    Ready,
    Missing,
    UnverifiedRustupProxy,
}

pub type ServerView = (Seq<char>, Seq<char>, Seq<char>, Option<Seq<char>>);

pub open spec fn server_view(s: LanguageServer) -> ServerView {
    (s.language@, s.command@, s.install@, match s.note {
        Some(n) => Some(n@),
        None => None,
    })
}

/// The known servers, in recommendation order.
pub open spec fn servers() -> Seq<ServerView> {
    seq![
        ("cpp"@, "clangd"@, "https://clangd.llvm.org/installation"@, None),
        ("csharp"@, "csharp-ls"@, "dotnet tool install -g csharp-ls"@, None),
        ("go"@, "gopls"@, "go install golang.org/x/tools/gopls@latest"@, None),
        ("jvm"@, "jdtls"@, "https://github.com/eclipse-jdtls/eclipse.jdt.ls#installation"@, Some(
            "JVM recommendation is coarse; it covers Java tooling, not Kotlin-specific servers."@,
        )),
        ("python"@, "pyright"@, "npm install -g pyright"@, None),
        ("shell"@, "bash-language-server"@, "npm install -g bash-language-server"@, None),
        ("sql"@, "sqls"@, "go install github.com/sqls-server/sqls@latest"@, None),
        ("terraform"@, "terraform-ls"@, "https://github.com/hashicorp/terraform-ls/blob/main/docs/installation.md"@, None),
        ("typescript"@, "typescript-language-server"@, "npm install -g typescript-language-server typescript"@, None),
        ("rust"@, "rust-analyzer"@, "rustup component add rust-analyzer"@, None),
    ]
}

fn server_list() -> (r: Vec<LanguageServer>)
    ensures
        r@.map_values(|s: LanguageServer| server_view(s)) == servers(),
{
    let mut v: Vec<LanguageServer> = Vec::new();
    v.push(LanguageServer { language: "cpp", command: "clangd", install: "https://clangd.llvm.org/installation", note: None });
    v.push(LanguageServer { language: "csharp", command: "csharp-ls", install: "dotnet tool install -g csharp-ls", note: None });
    v.push(LanguageServer { language: "go", command: "gopls", install: "go install golang.org/x/tools/gopls@latest", note: None });
    v.push(LanguageServer {
        language: "jvm",
        command: "jdtls",
        install: "https://github.com/eclipse-jdtls/eclipse.jdt.ls#installation",
        note: Some("JVM recommendation is coarse; it covers Java tooling, not Kotlin-specific servers."),
    });
    v.push(LanguageServer { language: "python", command: "pyright", install: "npm install -g pyright", note: None });
    v.push(LanguageServer {
        language: "shell",
        command: "bash-language-server",
        install: "npm install -g bash-language-server",
        note: None,
    });
    v.push(LanguageServer { language: "sql", command: "sqls", install: "go install github.com/sqls-server/sqls@latest", note: None });
    v.push(LanguageServer {
        language: "terraform",
        command: "terraform-ls",
        install: "https://github.com/hashicorp/terraform-ls/blob/main/docs/installation.md",
        note: None,
    });
    v.push(LanguageServer {
        language: "typescript",
        command: "typescript-language-server",
        install: "npm install -g typescript-language-server typescript",
        note: None,
    });
    v.push(LanguageServer { language: "rust", command: "rust-analyzer", install: "rustup component add rust-analyzer", note: None });
    assert(v@.map_values(|s: LanguageServer| server_view(s)) =~= servers());
    v
}

/// The servers, in order, whose language some workspace has.
pub open spec fn recommended(ss: Seq<ServerView>, languages: Set<Seq<char>>) -> Seq<ServerView>
    decreases ss.len(),
{
    if ss.len() == 0 {
        seq![]
    } else if languages.contains(ss.last().0) {
        recommended(ss.drop_last(), languages).push(ss.last())
    } else {
        recommended(ss.drop_last(), languages)
    }
}

pub open spec fn workspace_languages(ws: Seq<Workspace>) -> Set<Seq<char>> {
    ws.map_values(|w: Workspace| w.language@).to_set()
}

/// One recommendation for each discovered language, in a fixed order.
pub fn recommendations(workspaces: &Vec<Workspace>) -> (r: Vec<LanguageServer>)
    ensures
        r@.map_values(|s: LanguageServer| server_view(s)) == recommended(servers(), workspace_languages(workspaces@)),
{
    let all = server_list();
    let ghost sv = all@.map_values(|s: LanguageServer| server_view(s));
    let ghost langs = workspace_languages(workspaces@);
    let mut out: Vec<LanguageServer> = Vec::new();
    let mut i: usize = 0;
    assert(sv.take(0) =~= Seq::<ServerView>::empty());
    assert(out@.map_values(|s: LanguageServer| server_view(s)) =~= Seq::<ServerView>::empty());
    while i < all.len()
        invariant
            sv == all@.map_values(|s: LanguageServer| server_view(s)),
            sv == servers(),
            langs == workspace_languages(workspaces@),
            i <= all.len(),
            out@.map_values(|s: LanguageServer| server_view(s)) == recommended(sv.take(i as int), langs),
        decreases all.len() - i,
    {
        assert(sv.take(i + 1).drop_last() =~= sv.take(i as int));
        assert(sv.take(i + 1).last() == server_view(all@[i as int]));
        let mut found = false;
        let mut k: usize = 0;
        while k < workspaces.len()
            invariant
                k <= workspaces.len(),
                i < all.len(),
                found == exists|q: int| 0 <= q < k && (#[trigger] workspaces@[q]).language@ == all@[i as int].language@,
            decreases workspaces.len() - k,
        {
            if crate::text::same_text(workspaces[k].language.as_str(), all[i].language) {
                found = true;
            }
            k += 1;
        }
        proof {
            let target = all@[i as int].language@;
            let lv = workspaces@.map_values(|w: Workspace| w.language@);
            if found {
                let q = choose|q: int| 0 <= q < workspaces@.len() && (#[trigger] workspaces@[q]).language@ == target;
                assert(lv[q] == target);
                assert(langs.contains(target));
            } else {
                if langs.contains(target) {
                    let q = choose|q: int| 0 <= q < lv.len() && lv[q] == target;
                    assert(workspaces@[q].language@ == target);
                }
            }
        }
        let ghost before = out@;
        if found {
            out.push(all[i]);
            assert(out@.map_values(|s: LanguageServer| server_view(s)) =~= before.map_values(|s: LanguageServer| server_view(s)).push(server_view(all@[i as int])));
        }
        i += 1;
    }
    assert(sv.take(all.len() as int) =~= sv);
    out
}

/// A located command is ready, unless it is `rust-analyzer` and the file
/// found is rustup's proxy; an unlocated one is missing.
pub open spec fn probe_outcome(command: Seq<char>, located: Option<bool>) -> ProbeStatus {
    match located {
        None => ProbeStatus::Missing,
        Some(proxy) => if command == "rust-analyzer"@ && proxy {
            ProbeStatus::UnverifiedRustupProxy
        } else {
            ProbeStatus::Ready
        },
    }
}

/// Judges a probe: `located` is whether the command was found on the
/// search path and, if so, whether the file found links to rustup.
pub fn probe_status(command: &str, located: Option<bool>) -> (r: ProbeStatus)
    ensures
        r == probe_outcome(command@, located),
{
    match located {
        None => ProbeStatus::Missing,
        Some(proxy) => if crate::text::same_text(command, "rust-analyzer") && proxy {
            ProbeStatus::UnverifiedRustupProxy
        } else {
            ProbeStatus::Ready
        },
    }
}

/// The non-empty pieces of a `;`-separated list, in order.
pub open spec fn extensions_of(pathext: Seq<char>) -> Seq<Seq<char>> {
    crate::discovery::gitignore::nonempty(crate::text::split_char(pathext, ';'))
}

/// The file names a command may have on the search path: on Windows a name
/// without an extension takes each listed extension; otherwise the name as is.
pub open spec fn candidate_names(command: Seq<char>, is_windows: bool, pathext: Seq<char>) -> Seq<Seq<char>> {
    if is_windows && crate::checks::diff::association::extension(command) is None {
        extensions_of(pathext).map_values(|e: Seq<char>| command + e)
    } else {
        seq![command]
    }
}

pub fn path_candidates(command: &str, is_windows: bool, pathext: &str) -> (r: Vec<String>)
    ensures
        views(r@) == candidate_names(command@, is_windows, pathext@),
{
    let mut out: Vec<String> = Vec::new();
    let c = crate::text::chars_of(command);
    if is_windows && crate::checks::diff::association::extension_exec(c.as_slice()).is_none() {
        let pc = crate::text::chars_of(pathext);
        let pieces = crate::text::split_char_exec(pc.as_slice(), ';');
        let mut exts: Vec<String> = Vec::new();
        let ghost d = crate::text::deep(pieces@);
        let mut i: usize = 0;
        assert(d.take(0) =~= Seq::<Seq<char>>::empty());
        assert(views(exts@) =~= Seq::<Seq<char>>::empty());
        while i < pieces.len()
            invariant
                d == crate::text::deep(pieces@),
                i <= pieces.len(),
                views(exts@) == crate::discovery::gitignore::nonempty(d.take(i as int)),
            decreases pieces.len() - i,
        {
            assert(d.take(i + 1).drop_last() =~= d.take(i as int));
            assert(d.take(i + 1).last() == pieces@[i as int]@);
            if pieces[i].len() > 0 {
                let ghost b = exts@;
                exts.push(crate::text::string_of(pieces[i].as_slice()));
                assert(views(exts@) =~= views(b).push(pieces@[i as int]@));
            }
            i += 1;
        }
        assert(d.take(pieces.len() as int) =~= d);
        let mut k: usize = 0;
        while k < exts.len()
            invariant
                k <= exts.len(),
                views(out@) == views(exts@).take(k as int).map_values(|e: Seq<char>| command@ + e),
            decreases exts.len() - k,
        {
            let ghost b = out@;
            out.push(crate::text::concat2(command, exts[k].as_str()));
            assert(views(out@) =~= views(b).push(command@ + exts@[k as int]@));
            assert(views(exts@).take(k + 1).map_values(|e: Seq<char>| command@ + e) =~= views(exts@).take(k as int).map_values(
                |e: Seq<char>| command@ + e,
            ).push(command@ + exts@[k as int]@));
            k += 1;
        }
        assert(views(exts@).take(exts.len() as int) =~= views(exts@));
    } else {
        out.push(String::from_str(command));
        assert(views(out@) =~= seq![command@]);
    }
    out
}

} // verus!
