//! The descriptor's textual format: a fixed-layout TOML document.
//!
//! The emitter writes one canonical text per descriptor: a `[package]`
//! section with its required and optional key-value lines, one `[[module]]`
//! section per module, one `[[command]]` section per command, and an `[fs]`
//! section when the filesystem mapping is non-empty. String values are
//! quoted, with backslash, quote, newline, tab and carriage return escaped.
//! The parser reads exactly this canonical layout back; parsing what was
//! emitted returns the original descriptor (see `lemma_manifest_round_trip`).

use vstd::prelude::*;
use crate::error::Error;
use crate::manifest::{
    Abi, Bindings, BindingsView, Command, CommandView, Manifest, ManifestView, Module, ModuleView,
    Package, PackageView, opt_view,
};
use crate::strutil::{chars_of, str_eq, string_from_chars};
use vstd::string::StrSliceExecFns;

verus! {

// ----- well-formedness -----
/// Characters a descriptor string may carry: anything but the control
/// characters the format cannot escape (newline, tab and carriage return
/// are escaped, so they are allowed).
pub open spec fn char_ok(c: char) -> bool {
    c == '\n' || c == '\t' || c == '\r' || (c as u32 >= 32 && c as u32 != 127)
}

/// Whether every character of `s` can be carried by the format.
pub open spec fn str_ok(s: Seq<char>) -> bool {
    forall|i: int| 0 <= i < s.len() ==> char_ok(#[trigger] s[i])
}

/// Whether an optional string can be carried by the format.
pub open spec fn opt_ok(o: Option<Seq<char>>) -> bool {
    match o {
        Option::Some(s) => str_ok(s),
        Option::None => true,
    }
}

/// Whether every string of a module can be carried by the format.
pub open spec fn wf_module(m: ModuleView) -> bool {
    &&& str_ok(m.name)
    &&& str_ok(m.source)
    &&& match m.bindings {
        Option::Some(b) => str_ok(b.exports) && str_ok(b.wit_bindgen),
        Option::None => true,
    }
}

/// Whether every string of a command can be carried by the format.
pub open spec fn wf_command(c: CommandView) -> bool {
    str_ok(c.name) && str_ok(c.module) && str_ok(c.package)
}

/// Whether every string of a descriptor can be carried by the format.
pub open spec fn wf_manifest(m: ManifestView) -> bool {
    &&& str_ok(m.package.name)
    &&& str_ok(m.package.version)
    &&& str_ok(m.package.description)
    &&& opt_ok(m.package.license)
    &&& opt_ok(m.package.license_file)
    &&& opt_ok(m.package.readme)
    &&& opt_ok(m.package.repository)
    &&& opt_ok(m.package.homepage)
    &&& opt_ok(m.package.wasmer_extra_flags)
    &&& forall|i: int| 0 <= i < m.modules.len() ==> wf_module(#[trigger] m.modules[i])
    &&& forall|i: int| 0 <= i < m.commands.len() ==> wf_command(#[trigger] m.commands[i])
    &&& forall|i: int|
        0 <= i < m.fs.len() ==> str_ok((#[trigger] m.fs[i]).0) && str_ok(m.fs[i].1)
}

// ----- escaping -----
/// How one character appears inside a quoted string.
pub open spec fn esc_char(c: char) -> Seq<char> {
    if c == '\\' {
        seq!['\\', '\\']
    } else if c == '"' {
        seq!['\\', '"']
    } else if c == '\n' {
        seq!['\\', 'n']
    } else if c == '\t' {
        seq!['\\', 't']
    } else if c == '\r' {
        seq!['\\', 'r']
    } else {
        seq![c]
    }
}

/// A string as it appears inside quotes.
pub open spec fn escape(s: Seq<char>) -> Seq<char>
    decreases s.len(),
{
    if s.len() == 0 {
        Seq::empty()
    } else {
        esc_char(s[0]) + escape(s.skip(1))
    }
}

// ----- the emitted layout -----
/// One key-value line: the key prefix (ending in `= "`), the escaped value,
/// the closing quote, a newline.
pub open spec fn kv_line(key_prefix: Seq<char>, v: Seq<char>) -> Seq<char> {
    key_prefix + escape(v) + "\"\n"@
}

/// An optional key-value line: nothing when the value is absent.
pub open spec fn opt_kv_line(key_prefix: Seq<char>, o: Option<Seq<char>>) -> Seq<char> {
    match o {
        Option::Some(v) => kv_line(key_prefix, v),
        Option::None => Seq::empty(),
    }
}

/// The keyword naming an ABI in the descriptor.
pub open spec fn abi_keyword(a: Abi) -> Seq<char> {
    match a {
        Abi::Wasi => "wasi"@,
        Abi::Emscripten => "emscripten"@,
        Abi::NoAbi => "none"@,
    }
}

/// The optional key prefixes of the `[package]` section, in emission order.
pub open spec fn opt_key(j: int) -> Seq<char> {
    if j == 0 {
        "license = \""@
    } else if j == 1 {
        "license-file = \""@
    } else if j == 2 {
        "readme = \""@
    } else if j == 3 {
        "repository = \""@
    } else if j == 4 {
        "homepage = \""@
    } else {
        "wasmer-extra-flags = \""@
    }
}

/// The optional fields of the `[package]` section, in emission order.
pub open spec fn opt_field(p: PackageView, j: int) -> Option<Seq<char>> {
    if j == 0 {
        p.license
    } else if j == 1 {
        p.license_file
    } else if j == 2 {
        p.readme
    } else if j == 3 {
        p.repository
    } else if j == 4 {
        p.homepage
    } else {
        p.wasmer_extra_flags
    }
}

/// The optional lines of the `[package]` section from index `j` on.
pub open spec fn emit_opts(p: PackageView, j: int) -> Seq<char>
    decreases 6 - j,
{
    if j < 0 || j >= 6 {
        Seq::empty()
    } else {
        opt_kv_line(opt_key(j), opt_field(p, j)) + emit_opts(p, j + 1)
    }
}

/// The `[package]` section.
pub open spec fn emit_package(p: PackageView) -> Seq<char> {
    "[package]\n"@ + kv_line("name = \""@, p.name) + kv_line("version = \""@, p.version) + kv_line(
        "description = \""@,
        p.description,
    ) + emit_opts(p, 0)
}

/// The bindings line of a module, when it has one.
pub open spec fn emit_bindings(b: Option<BindingsView>) -> Seq<char> {
    match b {
        Option::Some(b) => "bindings = { exports = \""@ + escape(b.exports)
            + "\", wit-bindgen = \""@ + escape(b.wit_bindgen) + "\" }\n"@,
        Option::None => Seq::empty(),
    }
}

/// One `[[module]]` section.
pub open spec fn emit_module(m: ModuleView) -> Seq<char> {
    "[[module]]\n"@ + kv_line("name = \""@, m.name) + kv_line("source = \""@, m.source) + kv_line(
        "abi = \""@,
        abi_keyword(m.abi),
    ) + emit_bindings(m.bindings)
}

/// The `[[module]]` sections.
pub open spec fn emit_modules(ms: Seq<ModuleView>) -> Seq<char>
    decreases ms.len(),
{
    if ms.len() == 0 {
        Seq::empty()
    } else {
        emit_module(ms[0]) + emit_modules(ms.skip(1))
    }
}

/// One `[[command]]` section.
pub open spec fn emit_command(c: CommandView) -> Seq<char> {
    "[[command]]\n"@ + kv_line("name = \""@, c.name) + kv_line("module = \""@, c.module) + kv_line(
        "package = \""@,
        c.package,
    )
}

/// The `[[command]]` sections.
pub open spec fn emit_commands(cs: Seq<CommandView>) -> Seq<char>
    decreases cs.len(),
{
    if cs.len() == 0 {
        Seq::empty()
    } else {
        emit_command(cs[0]) + emit_commands(cs.skip(1))
    }
}

/// One line of the `[fs]` section.
pub open spec fn emit_fs_pair(k: Seq<char>, v: Seq<char>) -> Seq<char> {
    "\""@ + escape(k) + "\" = \""@ + escape(v) + "\"\n"@
}

/// The lines of the `[fs]` section.
pub open spec fn emit_fs_pairs(ps: Seq<(Seq<char>, Seq<char>)>) -> Seq<char>
    decreases ps.len(),
{
    if ps.len() == 0 {
        Seq::empty()
    } else {
        emit_fs_pair(ps[0].0, ps[0].1) + emit_fs_pairs(ps.skip(1))
    }
}

/// The `[fs]` section; omitted entirely when the mapping is empty.
pub open spec fn emit_fs(ps: Seq<(Seq<char>, Seq<char>)>) -> Seq<char> {
    if ps.len() == 0 {
        Seq::empty()
    } else {
        "[fs]\n"@ + emit_fs_pairs(ps)
    }
}

/// The canonical text of a descriptor.
pub open spec fn spec_emit_manifest(m: ManifestView) -> Seq<char> {
    emit_package(m.package) + emit_modules(m.modules) + emit_commands(m.commands) + emit_fs(m.fs)
}

// ----- executable well-formedness check -----
/// Whether the character can be carried by the format.
fn char_ok_exec(c: char) -> (r: bool)
    ensures
        r == char_ok(c),
{
    c == '\n' || c == '\t' || c == '\r' || (c as u32 >= 32 && c as u32 != 127)
}

/// Whether every character of `s` can be carried by the format.
fn str_ok_exec(s: &str) -> (r: bool)
    ensures
        r == str_ok(s@),
{
    let n = s.unicode_len();
    let mut i: usize = 0;
    while i < n
        invariant
            i <= n,
            n == s@.len(),
            forall|j: int| 0 <= j < i ==> char_ok(#[trigger] s@[j]),
        decreases n - i,
    {
        if !char_ok_exec(s.get_char(i)) {
            return false;
        }
        i = i + 1;
    }
    true
}

/// Whether an optional string can be carried by the format.
fn opt_ok_exec(o: &Option<String>) -> (r: bool)
    ensures
        r == opt_ok(opt_view(*o)),
{
    match o {
        Option::Some(s) => str_ok_exec(s.as_str()),
        Option::None => true,
    }
}

/// Whether every string of the descriptor can be carried by the format.
pub fn manifest_wf(m: &Manifest) -> (r: bool)
    ensures
        r == wf_manifest(m@),
{
    if !str_ok_exec(m.package.name.as_str()) || !str_ok_exec(m.package.version.as_str())
        || !str_ok_exec(m.package.description.as_str()) {
        return false;
    }
    if !opt_ok_exec(&m.package.license) || !opt_ok_exec(&m.package.license_file) || !opt_ok_exec(
        &m.package.readme,
    ) || !opt_ok_exec(&m.package.repository) || !opt_ok_exec(&m.package.homepage) || !opt_ok_exec(
        &m.package.wasmer_extra_flags,
    ) {
        return false;
    }
    let nm = m.modules.len();
    let mut i: usize = 0;
    while i < nm
        invariant
            i <= nm,
            nm == m.modules@.len(),
            forall|j: int| 0 <= j < i ==> wf_module(#[trigger] m@.modules[j]),
        decreases nm - i,
    {
        let md = &m.modules[i];
        let ok = str_ok_exec(md.name.as_str()) && str_ok_exec(md.source.as_str()) && (match &
            md.bindings {
            Option::Some(b) => str_ok_exec(b.exports.as_str()) && str_ok_exec(
                b.wit_bindgen.as_str(),
            ),
            Option::None => true,
        });
        if !ok {
            proof {
                assert(m@.modules[i as int] == m.modules@[i as int]@);
            }
            return false;
        }
        proof {
            assert(m@.modules[i as int] == m.modules@[i as int]@);
        }
        i = i + 1;
    }
    let nc = m.commands.len();
    let mut i: usize = 0;
    while i < nc
        invariant
            i <= nc,
            nc == m.commands@.len(),
            forall|j: int| 0 <= j < i ==> wf_command(#[trigger] m@.commands[j]),
        decreases nc - i,
    {
        let c = &m.commands[i];
        let ok = str_ok_exec(c.name.as_str()) && str_ok_exec(c.module.as_str()) && str_ok_exec(
            c.package.as_str(),
        );
        if !ok {
            proof {
                assert(m@.commands[i as int] == m.commands@[i as int]@);
            }
            return false;
        }
        proof {
            assert(m@.commands[i as int] == m.commands@[i as int]@);
        }
        i = i + 1;
    }
    let nf = m.fs.len();
    let mut i: usize = 0;
    while i < nf
        invariant
            i <= nf,
            nf == m.fs@.len(),
            forall|j: int|
                0 <= j < i ==> str_ok((#[trigger] m@.fs[j]).0) && str_ok(m@.fs[j].1),
        decreases nf - i,
    {
        let ok = str_ok_exec(m.fs[i].0.as_str()) && str_ok_exec(m.fs[i].1.as_str());
        if !ok {
            proof {
                assert(m@.fs[i as int] == (m.fs@[i as int].0@, m.fs@[i as int].1@));
            }
            return false;
        }
        proof {
            assert(m@.fs[i as int] == (m.fs@[i as int].0@, m.fs@[i as int].1@));
        }
        i = i + 1;
    }
    true
}

// ----- executable emitter -----
/// The keyword naming an ABI.
fn abi_keyword_exec(a: Abi) -> (r: &'static str)
    ensures
        r@ == abi_keyword(a),
{
    match a {
        Abi::Wasi => "wasi",
        Abi::Emscripten => "emscripten",
        Abi::NoAbi => "none",
    }
}

/// Appends the characters of `s` to `buf`.
fn push_lit(buf: &mut Vec<char>, s: &str)
    ensures
        final(buf)@ == old(buf)@ + s@,
{
    let ghost b0 = buf@;
    let n = s.unicode_len();
    let mut i: usize = 0;
    while i < n
        invariant
            i <= n,
            n == s@.len(),
            buf@ == b0 + s@.take(i as int),
        decreases n - i,
    {
        buf.push(s.get_char(i));
        proof {
            assert(b0 + s@.take(i + 1 as int) =~= (b0 + s@.take(i as int)).push(s@[i as int]));
        }
        i = i + 1;
    }
    proof {
        assert(b0 + s@.take(n as int) =~= b0 + s@);
    }
}

/// Appends `escape(s@.skip(i))` to `buf`.
fn push_escaped_from(buf: &mut Vec<char>, s: &str, i: usize)
    requires
        i <= s@.len(),
    ensures
        final(buf)@ == old(buf)@ + escape(s@.skip(i as int)),
    decreases s@.len() - i,
{
    let ghost b0 = buf@;
    let n = s.unicode_len();
    if i == n {
        proof {
            assert(s@.skip(i as int) =~= Seq::<char>::empty());
            assert(b0 + escape(s@.skip(i as int)) =~= b0);
        }
        return ;
    }
    let c = s.get_char(i);
    if c == '\\' {
        buf.push('\\');
        buf.push('\\');
    } else if c == '"' {
        buf.push('\\');
        buf.push('"');
    } else if c == '\n' {
        buf.push('\\');
        buf.push('n');
    } else if c == '\t' {
        buf.push('\\');
        buf.push('t');
    } else if c == '\r' {
        buf.push('\\');
        buf.push('r');
    } else {
        buf.push(c);
    }
    proof {
        assert(buf@ =~= b0 + esc_char(s@[i as int]));
    }
    push_escaped_from(buf, s, i + 1);
    proof {
        assert(s@.skip(i as int).len() > 0);
        assert(s@.skip(i as int)[0] == s@[i as int]);
        assert(s@.skip(i as int).skip(1) =~= s@.skip(i + 1 as int));
        assert(escape(s@.skip(i as int)) == esc_char(s@[i as int]) + escape(s@.skip(i + 1 as int)));
        assert((b0 + esc_char(s@[i as int])) + escape(s@.skip(i + 1 as int)) =~= b0 + escape(
            s@.skip(i as int),
        ));
    }
}

/// Appends one key-value line to `buf`.
fn push_kv(buf: &mut Vec<char>, key_prefix: &str, v: &str)
    ensures
        final(buf)@ == old(buf)@ + kv_line(key_prefix@, v@),
{
    let ghost b0 = buf@;
    push_lit(buf, key_prefix);
    push_escaped_from(buf, v, 0);
    proof {
        assert(v@.skip(0) =~= v@);
    }
    push_lit(buf, "\"\n");
    proof {
        assert(buf@ =~= b0 + kv_line(key_prefix@, v@));
    }
}

/// Appends one optional key-value line to `buf`.
fn push_opt_kv(buf: &mut Vec<char>, key_prefix: &str, o: &Option<String>)
    ensures
        final(buf)@ == old(buf)@ + opt_kv_line(key_prefix@, opt_view(*o)),
{
    match o {
        Option::Some(v) => push_kv(buf, key_prefix, v.as_str()),
        Option::None => {
            proof {
                assert(old(buf)@ + opt_kv_line(key_prefix@, opt_view(*o)) =~= old(buf)@);
            }
        },
    }
}

/// Appends the `[[module]]` sections from index `i` on to `buf`.
fn push_modules_from(buf: &mut Vec<char>, ms: &Vec<Module>, i: usize)
    requires
        i <= ms@.len(),
    ensures
        final(buf)@ == old(buf)@ + emit_modules(
            ms@.map_values(|m: Module| m@).skip(i as int),
        ),
    decreases ms@.len() - i,
{
    let ghost views = ms@.map_values(|m: Module| m@);
    let ghost b0 = buf@;
    if i == ms.len() {
        proof {
            assert(views.skip(i as int) =~= Seq::<ModuleView>::empty());
            assert(b0 + emit_modules(views.skip(i as int)) =~= b0);
        }
        return ;
    }
    let m = &ms[i];
    push_lit(buf, "[[module]]\n");
    push_kv(buf, "name = \"", m.name.as_str());
    push_kv(buf, "source = \"", m.source.as_str());
    push_kv(buf, "abi = \"", abi_keyword_exec(m.abi));
    match &m.bindings {
        Option::Some(b) => {
            push_lit(buf, "bindings = { exports = \"");
            push_escaped_from(buf, b.exports.as_str(), 0);
            push_lit(buf, "\", wit-bindgen = \"");
            push_escaped_from(buf, b.wit_bindgen.as_str(), 0);
            push_lit(buf, "\" }\n");
            proof {
                assert(b.exports@.skip(0) =~= b.exports@);
                assert(b.wit_bindgen@.skip(0) =~= b.wit_bindgen@);
            }
        },
        Option::None => {},
    }
    proof {
        assert(buf@ =~= b0 + emit_module(views[i as int]));
    }
    push_modules_from(buf, ms, i + 1);
    proof {
        assert(views.skip(i as int).len() > 0);
        assert(views.skip(i as int)[0] == views[i as int]);
        assert(views.skip(i as int).skip(1) =~= views.skip(i + 1 as int));
        assert((b0 + emit_module(views[i as int])) + emit_modules(views.skip(i + 1 as int)) =~= b0
            + emit_modules(views.skip(i as int)));
    }
}

/// Appends the `[[command]]` sections from index `i` on to `buf`.
fn push_commands_from(buf: &mut Vec<char>, cs: &Vec<Command>, i: usize)
    requires
        i <= cs@.len(),
    ensures
        final(buf)@ == old(buf)@ + emit_commands(
            cs@.map_values(|c: Command| c@).skip(i as int),
        ),
    decreases cs@.len() - i,
{
    let ghost views = cs@.map_values(|c: Command| c@);
    let ghost b0 = buf@;
    if i == cs.len() {
        proof {
            assert(views.skip(i as int) =~= Seq::<CommandView>::empty());
            assert(b0 + emit_commands(views.skip(i as int)) =~= b0);
        }
        return ;
    }
    let c = &cs[i];
    push_lit(buf, "[[command]]\n");
    push_kv(buf, "name = \"", c.name.as_str());
    push_kv(buf, "module = \"", c.module.as_str());
    push_kv(buf, "package = \"", c.package.as_str());
    proof {
        assert(buf@ =~= b0 + emit_command(views[i as int]));
    }
    push_commands_from(buf, cs, i + 1);
    proof {
        assert(views.skip(i as int).len() > 0);
        assert(views.skip(i as int)[0] == views[i as int]);
        assert(views.skip(i as int).skip(1) =~= views.skip(i + 1 as int));
        assert((b0 + emit_command(views[i as int])) + emit_commands(views.skip(i + 1 as int)) =~= b0
            + emit_commands(views.skip(i as int)));
    }
}

/// Appends the `[fs]` lines from index `i` on to `buf`.
fn push_fs_from(buf: &mut Vec<char>, ps: &Vec<(String, String)>, i: usize)
    requires
        i <= ps@.len(),
    ensures
        final(buf)@ == old(buf)@ + emit_fs_pairs(
            ps@.map_values(|p: (String, String)| (p.0@, p.1@)).skip(i as int),
        ),
    decreases ps@.len() - i,
{
    let ghost views = ps@.map_values(|p: (String, String)| (p.0@, p.1@));
    let ghost b0 = buf@;
    if i == ps.len() {
        proof {
            assert(views.skip(i as int) =~= Seq::<(Seq<char>, Seq<char>)>::empty());
            assert(b0 + emit_fs_pairs(views.skip(i as int)) =~= b0);
        }
        return ;
    }
    push_lit(buf, "\"");
    push_escaped_from(buf, ps[i].0.as_str(), 0);
    push_lit(buf, "\" = \"");
    push_escaped_from(buf, ps[i].1.as_str(), 0);
    push_lit(buf, "\"\n");
    proof {
        assert(ps@[i as int].0@.skip(0) =~= ps@[i as int].0@);
        assert(ps@[i as int].1@.skip(0) =~= ps@[i as int].1@);
        assert(buf@ =~= b0 + emit_fs_pair(views[i as int].0, views[i as int].1));
    }
    push_fs_from(buf, ps, i + 1);
    proof {
        assert(views.skip(i as int).len() > 0);
        assert(views.skip(i as int)[0] == views[i as int]);
        assert(views.skip(i as int).skip(1) =~= views.skip(i + 1 as int));
        assert((b0 + emit_fs_pair(views[i as int].0, views[i as int].1)) + emit_fs_pairs(
            views.skip(i + 1 as int),
        ) =~= b0 + emit_fs_pairs(views.skip(i as int)));
    }
}

/// Serializes a descriptor to its canonical text; fails exactly when some
/// string of the descriptor holds a character the format cannot carry.
#[verifier::rlimit(100)]
#[verifier::spinoff_prover]
pub fn emit_manifest(m: &Manifest) -> (r: Result<String, Error>)
    ensures
        match r {
            Result::Ok(s) => wf_manifest(m@) && s@ == spec_emit_manifest(m@),
            Result::Err(e) => e == Error::ManifestNotSerializable && !wf_manifest(m@),
        },
{
    if !manifest_wf(m) {
        return Result::Err(Error::ManifestNotSerializable);
    }
    let mut buf: Vec<char> = Vec::new();
    push_lit(&mut buf, "[package]\n");
    push_kv(&mut buf, "name = \"", m.package.name.as_str());
    push_kv(&mut buf, "version = \"", m.package.version.as_str());
    push_kv(&mut buf, "description = \"", m.package.description.as_str());
    let ghost after_required = buf@;
    push_opt_kv(&mut buf, "license = \"", &m.package.license);
    push_opt_kv(&mut buf, "license-file = \"", &m.package.license_file);
    push_opt_kv(&mut buf, "readme = \"", &m.package.readme);
    push_opt_kv(&mut buf, "repository = \"", &m.package.repository);
    push_opt_kv(&mut buf, "homepage = \"", &m.package.homepage);
    push_opt_kv(&mut buf, "wasmer-extra-flags = \"", &m.package.wasmer_extra_flags);
    proof {
        let p = m@.package;
        assert(emit_opts(p, 6) =~= Seq::<char>::empty());
        assert(emit_opts(p, 5) == opt_kv_line(opt_key(5), opt_field(p, 5)) + emit_opts(p, 6));
        assert(emit_opts(p, 4) == opt_kv_line(opt_key(4), opt_field(p, 4)) + emit_opts(p, 5));
        assert(emit_opts(p, 3) == opt_kv_line(opt_key(3), opt_field(p, 3)) + emit_opts(p, 4));
        assert(emit_opts(p, 2) == opt_kv_line(opt_key(2), opt_field(p, 2)) + emit_opts(p, 3));
        assert(emit_opts(p, 1) == opt_kv_line(opt_key(1), opt_field(p, 1)) + emit_opts(p, 2));
        assert(emit_opts(p, 0) == opt_kv_line(opt_key(0), opt_field(p, 0)) + emit_opts(p, 1));
        assert(buf@ =~= after_required + emit_opts(p, 0));
        assert(buf@ =~= emit_package(p));
    }
    push_modules_from(&mut buf, &m.modules, 0);
    proof {
        assert(m@.modules.skip(0) =~= m@.modules);
    }
    push_commands_from(&mut buf, &m.commands, 0);
    proof {
        assert(m@.commands.skip(0) =~= m@.commands);
    }
    if m.fs.len() > 0 {
        push_lit(&mut buf, "[fs]\n");
        push_fs_from(&mut buf, &m.fs, 0);
        proof {
            assert(m@.fs.skip(0) =~= m@.fs);
        }
    }
    proof {
        assert(buf@ =~= spec_emit_manifest(m@));
    }
    Result::Ok(string_from_chars(&buf))
}

// ----- the parsed layout -----
/// Consume an exact prefix; the rest follows it.
pub open spec fn sp_lit(s: Seq<char>, lit: Seq<char>) -> Option<Seq<char>> {
    if lit.is_prefix_of(s) {
        Option::Some(s.skip(lit.len() as int))
    } else {
        Option::None
    }
}

/// The character an escape letter stands for.
pub open spec fn unesc_char(c: char) -> Option<char> {
    if c == '\\' {
        Option::Some('\\')
    } else if c == '"' {
        Option::Some('"')
    } else if c == 'n' {
        Option::Some('\n')
    } else if c == 't' {
        Option::Some('\t')
    } else if c == 'r' {
        Option::Some('\r')
    } else {
        Option::None
    }
}

/// Scan a quoted string's content up to its closing quote; the rest starts
/// after the quote.
pub open spec fn sp_estr(s: Seq<char>) -> Option<(Seq<char>, Seq<char>)>
    decreases s.len(),
{
    if s.len() == 0 {
        Option::None
    } else if s[0] == '"' {
        Option::Some((Seq::empty(), s.skip(1)))
    } else if s[0] == '\\' {
        if s.len() >= 2 {
            match unesc_char(s[1]) {
                Option::Some(c) => match sp_estr(s.skip(2)) {
                    Option::Some(p) => Option::Some((seq![c] + p.0, p.1)),
                    Option::None => Option::None,
                },
                Option::None => Option::None,
            }
        } else {
            Option::None
        }
    } else if s[0] == '\n' {
        Option::None
    } else {
        match sp_estr(s.skip(1)) {
            Option::Some(p) => Option::Some((seq![s[0]] + p.0, p.1)),
            Option::None => Option::None,
        }
    }
}

/// One key-value line: the key prefix, a quoted value, a newline.
pub open spec fn sp_kv(s: Seq<char>, key_prefix: Seq<char>) -> Option<(Seq<char>, Seq<char>)> {
    match sp_lit(s, key_prefix) {
        Option::Some(s1) => match sp_estr(s1) {
            Option::Some(p) => match sp_lit(p.1, "\n"@) {
                Option::Some(s3) => Option::Some((p.0, s3)),
                Option::None => Option::None,
            },
            Option::None => Option::None,
        },
        Option::None => Option::None,
    }
}

/// An optional key-value line: absent when the key prefix does not follow.
pub open spec fn sp_opt_kv(s: Seq<char>, key_prefix: Seq<char>) -> Option<
    (Option<Seq<char>>, Seq<char>),
> {
    if key_prefix.is_prefix_of(s) {
        match sp_kv(s, key_prefix) {
            Option::Some(p) => Option::Some((Option::Some(p.0), p.1)),
            Option::None => Option::None,
        }
    } else {
        Option::Some((Option::None, s))
    }
}

/// The optional package lines from index `j` on, in emission order.
pub open spec fn sp_opts(s: Seq<char>, j: int) -> Option<(Seq<Option<Seq<char>>>, Seq<char>)>
    decreases 6 - j,
{
    if j < 0 || j >= 6 {
        Option::Some((Seq::empty(), s))
    } else {
        match sp_opt_kv(s, opt_key(j)) {
            Option::Some(p) => match sp_opts(p.1, j + 1) {
                Option::Some(q) => Option::Some((seq![p.0] + q.0, q.1)),
                Option::None => Option::None,
            },
            Option::None => Option::None,
        }
    }
}

/// The `[package]` section.
pub open spec fn sp_package(s: Seq<char>) -> Option<(PackageView, Seq<char>)> {
    match sp_lit(s, "[package]\n"@) {
        Option::Some(s1) => match sp_kv(s1, "name = \""@) {
            Option::Some(pn) => match sp_kv(pn.1, "version = \""@) {
                Option::Some(pv) => match sp_kv(pv.1, "description = \""@) {
                    Option::Some(pd) => match sp_opts(pd.1, 0) {
                        Option::Some(po) => Option::Some(
                            (
                                PackageView {
                                    name: pn.0,
                                    version: pv.0,
                                    description: pd.0,
                                    license: po.0[0],
                                    license_file: po.0[1],
                                    readme: po.0[2],
                                    repository: po.0[3],
                                    homepage: po.0[4],
                                    wasmer_extra_flags: po.0[5],
                                },
                                po.1,
                            ),
                        ),
                        Option::None => Option::None,
                    },
                    Option::None => Option::None,
                },
                Option::None => Option::None,
            },
            Option::None => Option::None,
        },
        Option::None => Option::None,
    }
}

/// The ABI a keyword names.
pub open spec fn sp_abi(v: Seq<char>) -> Option<Abi> {
    if v == "wasi"@ {
        Option::Some(Abi::Wasi)
    } else if v == "emscripten"@ {
        Option::Some(Abi::Emscripten)
    } else if v == "none"@ {
        Option::Some(Abi::NoAbi)
    } else {
        Option::None
    }
}

/// The bindings line of a module, when one follows.
pub open spec fn sp_bindings(s: Seq<char>) -> Option<(Option<BindingsView>, Seq<char>)> {
    if "bindings = { exports = \""@.is_prefix_of(s) {
        match sp_lit(s, "bindings = { exports = \""@) {
            Option::Some(s1) => match sp_estr(s1) {
                Option::Some(pe) => match sp_lit(pe.1, ", wit-bindgen = \""@) {
                    Option::Some(s2) => match sp_estr(s2) {
                        Option::Some(pw) => match sp_lit(pw.1, " }\n"@) {
                            Option::Some(s3) => Option::Some(
                                (
                                    Option::Some(
                                        BindingsView { exports: pe.0, wit_bindgen: pw.0 },
                                    ),
                                    s3,
                                ),
                            ),
                            Option::None => Option::None,
                        },
                        Option::None => Option::None,
                    },
                    Option::None => Option::None,
                },
                Option::None => Option::None,
            },
            Option::None => Option::None,
        }
    } else {
        Option::Some((Option::None, s))
    }
}

/// One `[[module]]` section.
pub open spec fn sp_module(s: Seq<char>) -> Option<(ModuleView, Seq<char>)> {
    match sp_lit(s, "[[module]]\n"@) {
        Option::Some(s1) => match sp_kv(s1, "name = \""@) {
            Option::Some(pn) => match sp_kv(pn.1, "source = \""@) {
                Option::Some(ps) => match sp_kv(ps.1, "abi = \""@) {
                    Option::Some(pa) => match sp_abi(pa.0) {
                        Option::Some(abi) => match sp_bindings(pa.1) {
                            Option::Some(pb) => Option::Some(
                                (
                                    ModuleView {
                                        name: pn.0,
                                        source: ps.0,
                                        abi: abi,
                                        bindings: pb.0,
                                    },
                                    pb.1,
                                ),
                            ),
                            Option::None => Option::None,
                        },
                        Option::None => Option::None,
                    },
                    Option::None => Option::None,
                },
                Option::None => Option::None,
            },
            Option::None => Option::None,
        },
        Option::None => Option::None,
    }
}

/// The `[[module]]` sections, as long as they follow.
pub open spec fn sp_modules(s: Seq<char>) -> Option<(Seq<ModuleView>, Seq<char>)>
    decreases s.len(),
{
    if "[[module]]\n"@.is_prefix_of(s) {
        match sp_module(s) {
            Option::Some(p) => if p.1.len() < s.len() {
                match sp_modules(p.1) {
                    Option::Some(q) => Option::Some((seq![p.0] + q.0, q.1)),
                    Option::None => Option::None,
                }
            } else {
                Option::None
            },
            Option::None => Option::None,
        }
    } else {
        Option::Some((Seq::empty(), s))
    }
}

/// One `[[command]]` section.
pub open spec fn sp_command(s: Seq<char>) -> Option<(CommandView, Seq<char>)> {
    match sp_lit(s, "[[command]]\n"@) {
        Option::Some(s1) => match sp_kv(s1, "name = \""@) {
            Option::Some(pn) => match sp_kv(pn.1, "module = \""@) {
                Option::Some(pm) => match sp_kv(pm.1, "package = \""@) {
                    Option::Some(pp) => Option::Some(
                        (CommandView { name: pn.0, module: pm.0, package: pp.0 }, pp.1),
                    ),
                    Option::None => Option::None,
                },
                Option::None => Option::None,
            },
            Option::None => Option::None,
        },
        Option::None => Option::None,
    }
}

/// The `[[command]]` sections, as long as they follow.
pub open spec fn sp_commands(s: Seq<char>) -> Option<(Seq<CommandView>, Seq<char>)>
    decreases s.len(),
{
    if "[[command]]\n"@.is_prefix_of(s) {
        match sp_command(s) {
            Option::Some(p) => if p.1.len() < s.len() {
                match sp_commands(p.1) {
                    Option::Some(q) => Option::Some((seq![p.0] + q.0, q.1)),
                    Option::None => Option::None,
                }
            } else {
                Option::None
            },
            Option::None => Option::None,
        }
    } else {
        Option::Some((Seq::empty(), s))
    }
}

/// One line of the `[fs]` section.
pub open spec fn sp_fs_pair(s: Seq<char>) -> Option<((Seq<char>, Seq<char>), Seq<char>)> {
    match sp_lit(s, "\""@) {
        Option::Some(s1) => match sp_estr(s1) {
            Option::Some(pk) => match sp_lit(pk.1, " = \""@) {
                Option::Some(s2) => match sp_estr(s2) {
                    Option::Some(pv) => match sp_lit(pv.1, "\n"@) {
                        Option::Some(s3) => Option::Some(((pk.0, pv.0), s3)),
                        Option::None => Option::None,
                    },
                    Option::None => Option::None,
                },
                Option::None => Option::None,
            },
            Option::None => Option::None,
        },
        Option::None => Option::None,
    }
}

/// The lines of the `[fs]` section, as long as they follow.
pub open spec fn sp_fs_pairs(s: Seq<char>) -> Option<(Seq<(Seq<char>, Seq<char>)>, Seq<char>)>
    decreases s.len(),
{
    if "\""@.is_prefix_of(s) {
        match sp_fs_pair(s) {
            Option::Some(p) => if p.1.len() < s.len() {
                match sp_fs_pairs(p.1) {
                    Option::Some(q) => Option::Some((seq![p.0] + q.0, q.1)),
                    Option::None => Option::None,
                }
            } else {
                Option::None
            },
            Option::None => Option::None,
        }
    } else {
        Option::Some((Seq::empty(), s))
    }
}

/// The `[fs]` section, when one follows.
pub open spec fn sp_fs(s: Seq<char>) -> Option<(Seq<(Seq<char>, Seq<char>)>, Seq<char>)> {
    if "[fs]\n"@.is_prefix_of(s) {
        match sp_lit(s, "[fs]\n"@) {
            Option::Some(s1) => sp_fs_pairs(s1),
            Option::None => Option::None,
        }
    } else {
        Option::Some((Seq::empty(), s))
    }
}

/// The descriptor a canonical text denotes, if it is one.
pub open spec fn spec_parse_manifest(s: Seq<char>) -> Option<ManifestView> {
    match sp_package(s) {
        Option::Some(pp) => match sp_modules(pp.1) {
            Option::Some(pm) => match sp_commands(pm.1) {
                Option::Some(pc) => match sp_fs(pc.1) {
                    Option::Some(pf) => if pf.1.len() == 0 {
                        Option::Some(
                            ManifestView {
                                package: pp.0,
                                modules: pm.0,
                                commands: pc.0,
                                fs: pf.0,
                            },
                        )
                    } else {
                        Option::None
                    },
                    Option::None => Option::None,
                },
                Option::None => Option::None,
            },
            Option::None => Option::None,
        },
        Option::None => Option::None,
    }
}

// ----- executable parser -----
/// An index of a prefix is an index of the whole.
proof fn lemma_prefix_index(s: Seq<char>, p: Seq<char>, i: int)
    requires
        p.is_prefix_of(s),
        0 <= i < p.len(),
    ensures
        s[i] == p[i],
{
    assert(s.subrange(0, p.len() as int)[i] == s[i]);
}

/// Consumes an exact literal at `pos`.
fn ex_lit(cs: &Vec<char>, pos: usize, lit: &str) -> (r: Option<usize>)
    requires
        pos <= cs@.len(),
    ensures
        match r {
            Option::Some(p2) => pos <= p2 <= cs@.len() && p2 - pos == lit@.len() && sp_lit(
                cs@.skip(pos as int),
                lit@,
            ) == Option::Some(cs@.skip(p2 as int)),
            Option::None => sp_lit(cs@.skip(pos as int), lit@) is None,
        },
{
    let ghost s = cs@.skip(pos as int);
    let n = cs.len();
    let k = lit.unicode_len();
    if k > n - pos {
        proof {
            assert(!lit@.is_prefix_of(s));
        }
        return Option::None;
    }
    let mut j: usize = 0;
    while j < k
        invariant
            j <= k,
            k == lit@.len(),
            n == cs@.len(),
            pos <= n,
            k <= n - pos,
            s == cs@.skip(pos as int),
            forall|t: int| 0 <= t < j ==> s[t] == lit@[t],
        decreases k - j,
    {
        if cs[pos + j] != lit.get_char(j) {
            proof {
                assert(s[j as int] == cs@[pos + j]);
                if lit@.is_prefix_of(s) {
                    lemma_prefix_index(s, lit@, j as int);
                }
            }
            return Option::None;
        }
        proof {
            assert(s[j as int] == cs@[pos + j]);
        }
        j = j + 1;
    }
    proof {
        assert(s.subrange(0, k as int) =~= lit@);
        assert(lit@.is_prefix_of(s));
        assert(s.skip(k as int) =~= cs@.skip((pos + k) as int));
    }
    Option::Some(pos + k)
}

/// Scans a quoted string's content at `pos`, appending it to `out`; returns
/// the position after the closing quote.
fn ex_estr(cs: &Vec<char>, pos: usize, out: &mut Vec<char>) -> (r: Option<usize>)
    requires
        pos <= cs@.len(),
    ensures
        match r {
            Option::Some(p2) => pos < p2 <= cs@.len() && (sp_estr(cs@.skip(pos as int))
                matches Option::Some(q) && final(out)@ == old(out)@ + q.0 && q.1 == cs@.skip(
                p2 as int,
            )),
            Option::None => sp_estr(cs@.skip(pos as int)) is None,
        },
    decreases cs@.len() - pos,
{
    let ghost s = cs@.skip(pos as int);
    if pos == cs.len() {
        proof {
            assert(s.len() == 0);
        }
        return Option::None;
    }
    let c = cs[pos];
    proof {
        assert(s[0] == cs@[pos as int]);
    }
    if c == '"' {
        proof {
            assert(s.skip(1) =~= cs@.skip(pos + 1 as int));
            assert(out@ =~= out@ + Seq::<char>::empty());
        }
        return Option::Some(pos + 1);
    }
    if c == '\\' {
        if pos + 1 == cs.len() {
            proof {
                assert(s.len() == 1);
            }
            return Option::None;
        }
        let c2 = cs[pos + 1];
        proof {
            assert(s[1] == cs@[pos + 1 as int]);
        }
        let u: char = if c2 == '\\' {
            '\\'
        } else if c2 == '"' {
            '"'
        } else if c2 == 'n' {
            '\n'
        } else if c2 == 't' {
            '\t'
        } else if c2 == 'r' {
            '\r'
        } else {
            proof {
                assert(unesc_char(s[1]) is None);
            }
            return Option::None;
        };
        out.push(u);
        let ghost mid = out@;
        let r = ex_estr(cs, pos + 2, out);
        match r {
            Option::Some(p2) => {
                proof {
                    assert(s.skip(2) =~= cs@.skip(pos + 2 as int));
                    match sp_estr(cs@.skip(pos + 2 as int)) {
                        Option::Some(q) => {
                            assert(sp_estr(s) == Option::Some((seq![u] + q.0, q.1)));
                            assert(old(out)@ + (seq![u] + q.0) =~= mid + q.0);
                        },
                        Option::None => {
                            assert(false);
                        },
                    }
                }
                Option::Some(p2)
            },
            Option::None => {
                proof {
                    assert(s.skip(2) =~= cs@.skip(pos + 2 as int));
                }
                Option::None
            },
        }
    } else if c == '\n' {
        Option::None
    } else {
        out.push(c);
        let ghost mid = out@;
        let r = ex_estr(cs, pos + 1, out);
        match r {
            Option::Some(p2) => {
                proof {
                    assert(s.skip(1) =~= cs@.skip(pos + 1 as int));
                    match sp_estr(cs@.skip(pos + 1 as int)) {
                        Option::Some(q) => {
                            assert(sp_estr(s) == Option::Some((seq![s[0]] + q.0, q.1)));
                            assert(old(out)@ + (seq![s[0]] + q.0) =~= mid + q.0);
                        },
                        Option::None => {
                            assert(false);
                        },
                    }
                }
                Option::Some(p2)
            },
            Option::None => {
                proof {
                    assert(s.skip(1) =~= cs@.skip(pos + 1 as int));
                }
                Option::None
            },
        }
    }
}

/// Parses one key-value line at `pos`.
fn ex_kv(cs: &Vec<char>, pos: usize, key: &str) -> (r: Option<(String, usize)>)
    requires
        pos <= cs@.len(),
    ensures
        match r {
            Option::Some(p) => p.1 <= cs@.len() && (sp_kv(cs@.skip(pos as int), key@)
                matches Option::Some(q) && p.0@ == q.0 && q.1 == cs@.skip(p.1 as int)),
            Option::None => sp_kv(cs@.skip(pos as int), key@) is None,
        },
{
    match ex_lit(cs, pos, key) {
        Option::Some(p1) => {
            let mut out: Vec<char> = Vec::new();
            match ex_estr(cs, p1, &mut out) {
                Option::Some(p2) => {
                    match ex_lit(cs, p2, "\n") {
                        Option::Some(p3) => {
                            proof {
                                match sp_estr(cs@.skip(p1 as int)) {
                                    Option::Some(q) => {
                                        assert(out@ =~= q.0);
                                    },
                                    Option::None => {
                                        assert(false);
                                    },
                                }
                            }
                            Option::Some((string_from_chars(&out), p3))
                        },
                        Option::None => Option::None,
                    }
                },
                Option::None => Option::None,
            }
        },
        Option::None => Option::None,
    }
}

/// Parses one optional key-value line at `pos`.
fn ex_opt_kv(cs: &Vec<char>, pos: usize, key: &str) -> (r: Option<(Option<String>, usize)>)
    requires
        pos <= cs@.len(),
    ensures
        match r {
            Option::Some(p) => p.1 <= cs@.len() && (sp_opt_kv(cs@.skip(pos as int), key@)
                matches Option::Some(q) && opt_view(p.0) == q.0 && q.1 == cs@.skip(p.1 as int)),
            Option::None => sp_opt_kv(cs@.skip(pos as int), key@) is None,
        },
{
    match ex_lit(cs, pos, key) {
        Option::Some(_) => match ex_kv(cs, pos, key) {
            Option::Some(p) => Option::Some((Option::Some(p.0), p.1)),
            Option::None => Option::None,
        },
        Option::None => Option::Some((Option::None, pos)),
    }
}

/// The ABI a parsed keyword names.
fn ex_abi(v: &String) -> (r: Option<Abi>)
    ensures
        r == sp_abi(v@),
{
    if str_eq(v.as_str(), "wasi") {
        Option::Some(Abi::Wasi)
    } else if str_eq(v.as_str(), "emscripten") {
        Option::Some(Abi::Emscripten)
    } else if str_eq(v.as_str(), "none") {
        Option::Some(Abi::NoAbi)
    } else {
        Option::None
    }
}

/// Parses the optional bindings line of a module at `pos`.
fn ex_bindings(cs: &Vec<char>, pos: usize) -> (r: Option<(Option<Bindings>, usize)>)
    requires
        pos <= cs@.len(),
    ensures
        match r {
            Option::Some(p) => p.1 <= cs@.len() && (sp_bindings(cs@.skip(pos as int))
                matches Option::Some(q) && (match p.0 {
                Option::Some(b) => q.0 == Option::Some(b@),
                Option::None => q.0 is None,
            }) && q.1 == cs@.skip(p.1 as int)),
            Option::None => sp_bindings(cs@.skip(pos as int)) is None,
        },
{
    match ex_lit(cs, pos, "bindings = { exports = \"") {
        Option::Some(p1) => {
            let mut exports: Vec<char> = Vec::new();
            match ex_estr(cs, p1, &mut exports) {
                Option::Some(p2) => match ex_lit(cs, p2, ", wit-bindgen = \"") {
                    Option::Some(p3) => {
                        let mut wb: Vec<char> = Vec::new();
                        match ex_estr(cs, p3, &mut wb) {
                            Option::Some(p4) => match ex_lit(cs, p4, " }\n") {
                                Option::Some(p5) => {
                                    proof {
                                        match sp_estr(cs@.skip(p1 as int)) {
                                            Option::Some(qe) => {
                                                assert(exports@ =~= qe.0);
                                            },
                                            Option::None => {
                                                assert(false);
                                            },
                                        }
                                        match sp_estr(cs@.skip(p3 as int)) {
                                            Option::Some(qw) => {
                                                assert(wb@ =~= qw.0);
                                            },
                                            Option::None => {
                                                assert(false);
                                            },
                                        }
                                    }
                                    let b = Bindings {
                                        exports: string_from_chars(&exports),
                                        wit_bindgen: string_from_chars(&wb),
                                    };
                                    Option::Some((Option::Some(b), p5))
                                },
                                Option::None => Option::None,
                            },
                            Option::None => Option::None,
                        }
                    },
                    Option::None => Option::None,
                },
                Option::None => Option::None,
            }
        },
        Option::None => Option::Some((Option::None, pos)),
    }
}

/// Parses one `[[module]]` section at `pos`.
fn ex_module(cs: &Vec<char>, pos: usize) -> (r: Option<(Module, usize)>)
    requires
        pos <= cs@.len(),
    ensures
        match r {
            Option::Some(p) => p.1 <= cs@.len() && (sp_module(cs@.skip(pos as int))
                matches Option::Some(q) && p.0@ == q.0 && q.1 == cs@.skip(p.1 as int)),
            Option::None => sp_module(cs@.skip(pos as int)) is None,
        },
{
    match ex_lit(cs, pos, "[[module]]\n") {
        Option::Some(p0) => match ex_kv(cs, p0, "name = \"") {
            Option::Some(pn) => match ex_kv(cs, pn.1, "source = \"") {
                Option::Some(ps) => match ex_kv(cs, ps.1, "abi = \"") {
                    Option::Some(pa) => match ex_abi(&pa.0) {
                        Option::Some(abi) => match ex_bindings(cs, pa.1) {
                            Option::Some(pb) => {
                                let m = Module {
                                    name: pn.0,
                                    source: ps.0,
                                    abi,
                                    bindings: pb.0,
                                };
                                Option::Some((m, pb.1))
                            },
                            Option::None => Option::None,
                        },
                        Option::None => Option::None,
                    },
                    Option::None => Option::None,
                },
                Option::None => Option::None,
            },
            Option::None => Option::None,
        },
        Option::None => Option::None,
    }
}

/// Parses the `[[module]]` sections at `pos`, as long as they follow.
fn ex_modules(cs: &Vec<char>, pos: usize) -> (r: Option<(Vec<Module>, usize)>)
    requires
        pos <= cs@.len(),
    ensures
        match r {
            Option::Some(p) => p.1 <= cs@.len() && (sp_modules(cs@.skip(pos as int))
                matches Option::Some(q) && p.0@.map_values(|m: Module| m@) == q.0 && q.1
                == cs@.skip(p.1 as int)),
            Option::None => sp_modules(cs@.skip(pos as int)) is None,
        },
    decreases cs@.len() - pos,
{
    match ex_lit(cs, pos, "[[module]]\n") {
        Option::None => {
            let v: Vec<Module> = Vec::new();
            proof {
                assert(v@.map_values(|m: Module| m@) =~= Seq::<ModuleView>::empty());
            }
            Option::Some((v, pos))
        },
        Option::Some(_) => match ex_module(cs, pos) {
            Option::Some(mp) => {
                let p1 = mp.1;
                if p1 <= pos {
                    return Option::None;
                }
                match ex_modules(cs, p1) {
                    Option::Some(vp) => {
                        let (mut v, p2) = vp;
                        let ghost v0 = v@;
                        v.insert(0, mp.0);
                        proof {
                            assert(v@.map_values(|m: Module| m@) =~= seq![mp.0@]
                                + v0.map_values(|m: Module| m@));
                        }
                        Option::Some((v, p2))
                    },
                    Option::None => Option::None,
                }
            },
            Option::None => Option::None,
        },
    }
}

/// Parses one `[[command]]` section at `pos`.
fn ex_command(cs: &Vec<char>, pos: usize) -> (r: Option<(Command, usize)>)
    requires
        pos <= cs@.len(),
    ensures
        match r {
            Option::Some(p) => p.1 <= cs@.len() && (sp_command(cs@.skip(pos as int))
                matches Option::Some(q) && p.0@ == q.0 && q.1 == cs@.skip(p.1 as int)),
            Option::None => sp_command(cs@.skip(pos as int)) is None,
        },
{
    match ex_lit(cs, pos, "[[command]]\n") {
        Option::Some(p0) => match ex_kv(cs, p0, "name = \"") {
            Option::Some(pn) => match ex_kv(cs, pn.1, "module = \"") {
                Option::Some(pm) => match ex_kv(cs, pm.1, "package = \"") {
                    Option::Some(pp) => {
                        let c = Command { name: pn.0, module: pm.0, package: pp.0 };
                        Option::Some((c, pp.1))
                    },
                    Option::None => Option::None,
                },
                Option::None => Option::None,
            },
            Option::None => Option::None,
        },
        Option::None => Option::None,
    }
}

/// Parses the `[[command]]` sections at `pos`, as long as they follow.
fn ex_commands(cs: &Vec<char>, pos: usize) -> (r: Option<(Vec<Command>, usize)>)
    requires
        pos <= cs@.len(),
    ensures
        match r {
            Option::Some(p) => p.1 <= cs@.len() && (sp_commands(cs@.skip(pos as int))
                matches Option::Some(q) && p.0@.map_values(|c: Command| c@) == q.0 && q.1
                == cs@.skip(p.1 as int)),
            Option::None => sp_commands(cs@.skip(pos as int)) is None,
        },
    decreases cs@.len() - pos,
{
    match ex_lit(cs, pos, "[[command]]\n") {
        Option::None => {
            let v: Vec<Command> = Vec::new();
            proof {
                assert(v@.map_values(|c: Command| c@) =~= Seq::<CommandView>::empty());
            }
            Option::Some((v, pos))
        },
        Option::Some(_) => match ex_command(cs, pos) {
            Option::Some(cp) => {
                let p1 = cp.1;
                if p1 <= pos {
                    return Option::None;
                }
                match ex_commands(cs, p1) {
                    Option::Some(vp) => {
                        let (mut v, p2) = vp;
                        let ghost v0 = v@;
                        v.insert(0, cp.0);
                        proof {
                            assert(v@.map_values(|c: Command| c@) =~= seq![cp.0@]
                                + v0.map_values(|c: Command| c@));
                        }
                        Option::Some((v, p2))
                    },
                    Option::None => Option::None,
                }
            },
            Option::None => Option::None,
        },
    }
}

/// Parses one `[fs]` line at `pos`.
fn ex_fs_pair(cs: &Vec<char>, pos: usize) -> (r: Option<((String, String), usize)>)
    requires
        pos <= cs@.len(),
    ensures
        match r {
            Option::Some(p) => p.1 <= cs@.len() && (sp_fs_pair(cs@.skip(pos as int))
                matches Option::Some(q) && (p.0.0@, p.0.1@) == q.0 && q.1 == cs@.skip(
                p.1 as int,
            )),
            Option::None => sp_fs_pair(cs@.skip(pos as int)) is None,
        },
{
    match ex_lit(cs, pos, "\"") {
        Option::Some(p1) => {
            let mut k: Vec<char> = Vec::new();
            match ex_estr(cs, p1, &mut k) {
                Option::Some(p2) => match ex_lit(cs, p2, " = \"") {
                    Option::Some(p3) => {
                        let mut v: Vec<char> = Vec::new();
                        match ex_estr(cs, p3, &mut v) {
                            Option::Some(p4) => match ex_lit(cs, p4, "\n") {
                                Option::Some(p5) => {
                                    proof {
                                        match sp_estr(cs@.skip(p1 as int)) {
                                            Option::Some(qk) => {
                                                assert(k@ =~= qk.0);
                                            },
                                            Option::None => {
                                                assert(false);
                                            },
                                        }
                                        match sp_estr(cs@.skip(p3 as int)) {
                                            Option::Some(qv) => {
                                                assert(v@ =~= qv.0);
                                            },
                                            Option::None => {
                                                assert(false);
                                            },
                                        }
                                    }
                                    Option::Some(
                                        ((string_from_chars(&k), string_from_chars(&v)), p5),
                                    )
                                },
                                Option::None => Option::None,
                            },
                            Option::None => Option::None,
                        }
                    },
                    Option::None => Option::None,
                },
                Option::None => Option::None,
            }
        },
        Option::None => Option::None,
    }
}

/// Parses the `[fs]` lines at `pos`, as long as they follow.
fn ex_fs_pairs(cs: &Vec<char>, pos: usize) -> (r: Option<(Vec<(String, String)>, usize)>)
    requires
        pos <= cs@.len(),
    ensures
        match r {
            Option::Some(p) => p.1 <= cs@.len() && (sp_fs_pairs(cs@.skip(pos as int))
                matches Option::Some(q) && p.0@.map_values(
                |x: (String, String)| (x.0@, x.1@),
            ) == q.0 && q.1 == cs@.skip(p.1 as int)),
            Option::None => sp_fs_pairs(cs@.skip(pos as int)) is None,
        },
    decreases cs@.len() - pos,
{
    match ex_lit(cs, pos, "\"") {
        Option::None => {
            let v: Vec<(String, String)> = Vec::new();
            proof {
                assert(v@.map_values(|x: (String, String)| (x.0@, x.1@)) =~= Seq::<
                    (Seq<char>, Seq<char>),
                >::empty());
            }
            Option::Some((v, pos))
        },
        Option::Some(_) => match ex_fs_pair(cs, pos) {
            Option::Some(pp) => {
                let p1 = pp.1;
                if p1 <= pos {
                    return Option::None;
                }
                match ex_fs_pairs(cs, p1) {
                    Option::Some(vp) => {
                        let (mut v, p2) = vp;
                        let ghost v0 = v@;
                        v.insert(0, pp.0);
                        proof {
                            assert(v@.map_values(|x: (String, String)| (x.0@, x.1@)) =~= seq![
                                (v@[0].0@, v@[0].1@),
                            ] + v0.map_values(|x: (String, String)| (x.0@, x.1@)));
                        }
                        Option::Some((v, p2))
                    },
                    Option::None => Option::None,
                }
            },
            Option::None => Option::None,
        },
    }
}

/// Parses the `[fs]` section at `pos`, when one follows.
fn ex_fs(cs: &Vec<char>, pos: usize) -> (r: Option<(Vec<(String, String)>, usize)>)
    requires
        pos <= cs@.len(),
    ensures
        match r {
            Option::Some(p) => p.1 <= cs@.len() && (sp_fs(cs@.skip(pos as int))
                matches Option::Some(q) && p.0@.map_values(
                |x: (String, String)| (x.0@, x.1@),
            ) == q.0 && q.1 == cs@.skip(p.1 as int)),
            Option::None => sp_fs(cs@.skip(pos as int)) is None,
        },
{
    match ex_lit(cs, pos, "[fs]\n") {
        Option::Some(p1) => ex_fs_pairs(cs, p1),
        Option::None => {
            let v: Vec<(String, String)> = Vec::new();
            proof {
                assert(v@.map_values(|x: (String, String)| (x.0@, x.1@)) =~= Seq::<
                    (Seq<char>, Seq<char>),
                >::empty());
            }
            Option::Some((v, pos))
        },
    }
}

/// Parses the `[package]` section at `pos`.
fn ex_package(cs: &Vec<char>, pos: usize) -> (r: Option<(Package, usize)>)
    requires
        pos <= cs@.len(),
    ensures
        match r {
            Option::Some(p) => p.1 <= cs@.len() && (sp_package(cs@.skip(pos as int))
                matches Option::Some(q) && p.0@ == q.0 && q.1 == cs@.skip(p.1 as int)),
            Option::None => sp_package(cs@.skip(pos as int)) is None,
        },
{
    proof {
        reveal_with_fuel(sp_opts, 8);
    }
    match ex_lit(cs, pos, "[package]\n") {
        Option::Some(p0) => match ex_kv(cs, p0, "name = \"") {
            Option::Some(pn) => match ex_kv(cs, pn.1, "version = \"") {
                Option::Some(pv) => match ex_kv(cs, pv.1, "description = \"") {
                    Option::Some(pd) => match ex_opt_kv(cs, pd.1, "license = \"") {
                        Option::Some(o0) => match ex_opt_kv(cs, o0.1, "license-file = \"") {
                            Option::Some(o1) => match ex_opt_kv(cs, o1.1, "readme = \"") {
                                Option::Some(o2) => match ex_opt_kv(
                                    cs,
                                    o2.1,
                                    "repository = \"",
                                ) {
                                    Option::Some(o3) => match ex_opt_kv(
                                        cs,
                                        o3.1,
                                        "homepage = \"",
                                    ) {
                                        Option::Some(o4) => match ex_opt_kv(
                                            cs,
                                            o4.1,
                                            "wasmer-extra-flags = \"",
                                        ) {
                                            Option::Some(o5) => {
                                                let p = Package {
                                                    name: pn.0,
                                                    version: pv.0,
                                                    description: pd.0,
                                                    license: o0.0,
                                                    license_file: o1.0,
                                                    readme: o2.0,
                                                    repository: o3.0,
                                                    homepage: o4.0,
                                                    wasmer_extra_flags: o5.0,
                                                };
                                                proof {
                                                    match sp_package(cs@.skip(pos as int)) {
                                                        Option::Some(q) => {
                                                            assert(p@ =~~= q.0);
                                                        },
                                                        Option::None => {
                                                            assert(false);
                                                        },
                                                    }
                                                }
                                                Option::Some((p, o5.1))
                                            },
                                            Option::None => Option::None,
                                        },
                                        Option::None => Option::None,
                                    },
                                    Option::None => Option::None,
                                },
                                Option::None => Option::None,
                            },
                            Option::None => Option::None,
                        },
                        Option::None => Option::None,
                    },
                    Option::None => Option::None,
                },
                Option::None => Option::None,
            },
            Option::None => Option::None,
        },
        Option::None => Option::None,
    }
}

/// Parses a canonical descriptor text. Succeeds on exactly the texts the
/// emitter writes, and returns the descriptor they denote.
pub fn parse_manifest(text: &str) -> (r: Option<Manifest>)
    ensures
        match r {
            Option::Some(m) => spec_parse_manifest(text@) == Option::Some(m@),
            Option::None => spec_parse_manifest(text@) is None,
        },
{
    let cs = chars_of(text);
    proof {
        assert(cs@.skip(0) =~= text@);
    }
    match ex_package(&cs, 0) {
        Option::Some(pp) => match ex_modules(&cs, pp.1) {
            Option::Some(pm) => match ex_commands(&cs, pm.1) {
                Option::Some(pc) => match ex_fs(&cs, pc.1) {
                    Option::Some(pf) => {
                        if pf.1 == cs.len() {
                            let m = Manifest {
                                package: pp.0,
                                modules: pm.0,
                                commands: pc.0,
                                fs: pf.0,
                            };
                            proof {
                                match spec_parse_manifest(text@) {
                                    Option::Some(mv) => {
                                        assert(m@ =~~= mv);
                                    },
                                    Option::None => {
                                        assert(false);
                                    },
                                }
                            }
                            Option::Some(m)
                        } else {
                            proof {
                                assert(cs@.skip(pf.1 as int).len() > 0);
                            }
                            Option::None
                        }
                    },
                    Option::None => Option::None,
                },
                Option::None => Option::None,
            },
            Option::None => Option::None,
        },
        Option::None => Option::None,
    }
}

// ----- round trip -----
/// A mismatch below the candidate prefix's length refutes the prefix.
proof fn lemma_mismatch_not_prefix(a: Seq<char>, s: Seq<char>, i: int)
    requires
        0 <= i < a.len(),
        s.len() < a.len() || (i < s.len() && s[i] != a[i]),
    ensures
        !a.is_prefix_of(s),
{
    if a.is_prefix_of(s) {
        lemma_prefix_index(s, a, i);
    }
}

/// A literal consumes itself.
proof fn lemma_lit_consume(lit: Seq<char>, rest: Seq<char>)
    ensures
        sp_lit(lit + rest, lit) == Option::Some(rest),
{
    assert((lit + rest).subrange(0, lit.len() as int) =~= lit);
    assert((lit + rest).skip(lit.len() as int) =~= rest);
}

/// Scanning an escaped string up to its closing quote recovers the string.
proof fn lemma_estr_consume(v: Seq<char>, rest: Seq<char>)
    ensures
        sp_estr(escape(v) + seq!['"'] + rest) == Option::Some((v, rest)),
    decreases v.len(),
{
    let s = escape(v) + seq!['"'] + rest;
    if v.len() == 0 {
        assert(s =~= seq!['"'] + rest);
        assert(s[0] == '"');
        assert(s.skip(1) =~= rest);
    } else {
        let c = v[0];
        assert(escape(v) == esc_char(c) + escape(v.skip(1)));
        lemma_estr_consume(v.skip(1), rest);
        let s2 = escape(v.skip(1)) + seq!['"'] + rest;
        if c == '\\' || c == '"' || c == '\n' || c == '\t' || c == '\r' {
            assert(s[0] == '\\');
            assert(s.len() >= 2);
            assert(s[1] == esc_char(c)[1]);
            assert(unesc_char(s[1]) == Option::Some(c));
            assert(s.skip(2) =~= s2);
            assert(sp_estr(s) == Option::Some((seq![c] + v.skip(1), rest)));
            assert(seq![c] + v.skip(1) =~= v);
        } else {
            assert(s[0] == c);
            assert(s.skip(1) =~= s2);
            assert(sp_estr(s) == Option::Some((seq![c] + v.skip(1), rest)));
            assert(seq![c] + v.skip(1) =~= v);
        }
    }
}

/// A key-value line consumes itself and yields its value.
proof fn lemma_kv_consume(key: Seq<char>, v: Seq<char>, rest: Seq<char>)
    ensures
        sp_kv(kv_line(key, v) + rest, key) == Option::Some((v, rest)),
{
    let s = kv_line(key, v) + rest;
    reveal_strlit("\"\n");
    reveal_strlit("\n");
    assert("\"\n"@ =~= seq!['"', '\n']);
    let t1 = seq!['\n'] + rest;
    assert("\n"@ =~= seq!['\n']);
    let t0 = escape(v) + seq!['"'] + t1;
    assert(s =~= key + t0);
    lemma_lit_consume(key, t0);
    lemma_estr_consume(v, t1);
    lemma_lit_consume("\n"@, rest);
    assert(t1 =~= "\n"@ + rest);
}

/// A present optional line consumes itself and yields its value.
proof fn lemma_opt_kv_present(key: Seq<char>, v: Seq<char>, rest: Seq<char>)
    ensures
        sp_opt_kv(kv_line(key, v) + rest, key) == Option::Some((Option::Some(v), rest)),
{
    lemma_kv_consume(key, v, rest);
    let s = kv_line(key, v) + rest;
    assert(s =~= key + (escape(v) + "\"\n"@ + rest));
    lemma_lit_consume(key, escape(v) + "\"\n"@ + rest);
    assert(key.is_prefix_of(s));
}

/// Two distinct optional keys differ before either key ends.
proof fn lemma_opt_keys_mismatch(j: int, k: int, tail: Seq<char>)
    requires
        0 <= j < 6,
        0 <= k < 6,
        j != k,
    ensures
        !opt_key(j).is_prefix_of(opt_key(k) + tail),
{
    reveal_strlit("license = \"");
    reveal_strlit("license-file = \"");
    reveal_strlit("readme = \"");
    reveal_strlit("repository = \"");
    reveal_strlit("homepage = \"");
    reveal_strlit("wasmer-extra-flags = \"");
    let d: int = if (j == 0 && k == 1) || (j == 1 && k == 0) {
        7
    } else if (j == 2 && k == 3) || (j == 3 && k == 2) {
        2
    } else {
        0
    };
    assert(opt_key(j)[d] != opt_key(k)[d]);
    assert((opt_key(k) + tail)[d] == opt_key(k)[d]);
    lemma_mismatch_not_prefix(opt_key(j), opt_key(k) + tail, d);
}

/// No optional key opens the text that follows the optional lines.
#[verifier::spinoff_prover]
proof fn lemma_key_not_prefix_of_opts(p: PackageView, j: int, k: int, tail: Seq<char>)
    requires
        0 <= j < 6,
        j < k <= 6,
        tail.len() == 0 || tail[0] == '[',
    ensures
        !opt_key(j).is_prefix_of(emit_opts(p, k) + tail),
    decreases 6 - k,
{
    reveal_strlit("license = \"");
    reveal_strlit("license-file = \"");
    reveal_strlit("readme = \"");
    reveal_strlit("repository = \"");
    reveal_strlit("homepage = \"");
    reveal_strlit("wasmer-extra-flags = \"");
    if k == 6 {
        assert(emit_opts(p, 6) + tail =~= tail);
        if tail.len() == 0 {
            assert(opt_key(j).len() > 0);
        } else {
            assert(opt_key(j)[0] != '[');
            lemma_mismatch_not_prefix(opt_key(j), tail, 0);
        }
    } else {
        match opt_field(p, k) {
            Option::None => {
                assert(emit_opts(p, k) =~= emit_opts(p, k + 1));
                lemma_key_not_prefix_of_opts(p, j, k + 1, tail);
                assert(emit_opts(p, k) + tail =~= emit_opts(p, k + 1) + tail);
            },
            Option::Some(v) => {
                assert(emit_opts(p, k) + tail =~= opt_key(k) + (escape(v) + "\"\n"@ + (emit_opts(
                    p,
                    k + 1,
                ) + tail)));
                lemma_opt_keys_mismatch(j, k, escape(v) + "\"\n"@ + (emit_opts(p, k + 1) + tail));
            },
        }
    }
}

/// Parsing the optional lines back recovers every optional field.
#[verifier::spinoff_prover]
proof fn lemma_opts_consume(p: PackageView, j: int, tail: Seq<char>)
    requires
        0 <= j <= 6,
        tail.len() == 0 || tail[0] == '[',
    ensures
        sp_opts(emit_opts(p, j) + tail, j) == Option::Some(
            (Seq::new((6 - j) as nat, |t: int| opt_field(p, j + t)), tail),
        ),
    decreases 6 - j,
{
    if j == 6 {
        assert(emit_opts(p, 6) + tail =~= tail);
        assert(Seq::new(0, |t: int| opt_field(p, 6 + t)) =~= Seq::<Option<Seq<char>>>::empty());
    } else {
        lemma_opts_consume(p, j + 1, tail);
        let rest = emit_opts(p, j + 1) + tail;
        let s = emit_opts(p, j) + tail;
        match opt_field(p, j) {
            Option::Some(v) => {
                assert(s =~= kv_line(opt_key(j), v) + rest);
                lemma_opt_kv_present(opt_key(j), v, rest);
            },
            Option::None => {
                assert(s =~= rest);
                lemma_key_not_prefix_of_opts(p, j, j + 1, tail);
            },
        }
        assert(seq![opt_field(p, j)] + Seq::new((5 - j) as nat, |t: int| opt_field(p, j + 1 + t))
            =~= Seq::new((6 - j) as nat, |t: int| opt_field(p, j + t)));
    }
}

/// Parsing the `[package]` section back recovers the package fields.
#[verifier::rlimit(100)]
#[verifier::spinoff_prover]
proof fn lemma_package_consume(p: PackageView, tail: Seq<char>)
    requires
        tail.len() == 0 || tail[0] == '[',
    ensures
        sp_package(emit_package(p) + tail) == Option::Some((p, tail)),
{
    let s = emit_package(p) + tail;
    let t3 = emit_opts(p, 0) + tail;
    let t2 = kv_line("description = \""@, p.description) + t3;
    let t1 = kv_line("version = \""@, p.version) + t2;
    let t0 = kv_line("name = \""@, p.name) + t1;
    assert(s =~= "[package]\n"@ + t0);
    lemma_lit_consume("[package]\n"@, t0);
    lemma_kv_consume("name = \""@, p.name, t1);
    lemma_kv_consume("version = \""@, p.version, t2);
    lemma_kv_consume("description = \""@, p.description, t3);
    lemma_opts_consume(p, 0, tail);
    match sp_package(s) {
        Option::Some(q) => {
            assert(q.0 =~~= p);
        },
        Option::None => {
            assert(false);
        },
    }
}

/// The keyword of an ABI names that ABI.
proof fn lemma_abi_keyword(a: Abi)
    ensures
        sp_abi(abi_keyword(a)) == Option::Some(a),
{
    reveal_strlit("wasi");
    reveal_strlit("emscripten");
    reveal_strlit("none");
    assert("wasi"@.len() == 4);
    assert("emscripten"@.len() == 10);
    assert("none"@.len() == 4);
    assert("wasi"@[0] == 'w' && "none"@[0] == 'n');
}

/// A present bindings line consumes itself and yields its reference.
proof fn lemma_bindings_consume_present(b: BindingsView, rest: Seq<char>)
    ensures
        sp_bindings(emit_bindings(Option::Some(b)) + rest) == Option::Some(
            (Option::Some(b), rest),
        ),
{
    let k1 = "bindings = { exports = \""@;
    reveal_strlit("\", wit-bindgen = \"");
    reveal_strlit(", wit-bindgen = \"");
    reveal_strlit("\" }\n");
    reveal_strlit(" }\n");
    assert("\", wit-bindgen = \""@ =~= seq!['"'] + ", wit-bindgen = \""@);
    assert("\" }\n"@ =~= seq!['"'] + " }\n"@);
    let t3 = " }\n"@ + rest;
    let t2 = escape(b.wit_bindgen) + seq!['"'] + t3;
    let t1 = ", wit-bindgen = \""@ + t2;
    let t0 = escape(b.exports) + seq!['"'] + t1;
    let s = emit_bindings(Option::Some(b)) + rest;
    assert(s =~= k1 + t0);
    lemma_lit_consume(k1, t0);
    assert(k1.is_prefix_of(s));
    lemma_estr_consume(b.exports, t1);
    lemma_lit_consume(", wit-bindgen = \""@, t2);
    lemma_estr_consume(b.wit_bindgen, t3);
    lemma_lit_consume(" }\n"@, rest);
}

/// No bindings line opens a section header or the end of the text.
proof fn lemma_bindings_absent(s: Seq<char>)
    requires
        s.len() == 0 || s[0] == '[',
    ensures
        sp_bindings(s) == Option::Some((Option::<BindingsView>::None, s)),
{
    reveal_strlit("bindings = { exports = \"");
    let k1 = "bindings = { exports = \""@;
    if s.len() == 0 {
        assert(k1.len() > 0);
    } else {
        assert(k1[0] != '[');
        lemma_mismatch_not_prefix(k1, s, 0);
    }
}

/// Parsing one `[[module]]` section back recovers the module.
#[verifier::rlimit(100)]
#[verifier::spinoff_prover]
proof fn lemma_module_consume(m: ModuleView, rest: Seq<char>)
    requires
        rest.len() == 0 || rest[0] == '[',
    ensures
        sp_module(emit_module(m) + rest) == Option::Some((m, rest)),
{
    let s = emit_module(m) + rest;
    let t3 = emit_bindings(m.bindings) + rest;
    let t2 = kv_line("abi = \""@, abi_keyword(m.abi)) + t3;
    let t1 = kv_line("source = \""@, m.source) + t2;
    let t0 = kv_line("name = \""@, m.name) + t1;
    assert(s =~= "[[module]]\n"@ + t0);
    lemma_lit_consume("[[module]]\n"@, t0);
    lemma_kv_consume("name = \""@, m.name, t1);
    lemma_kv_consume("source = \""@, m.source, t2);
    lemma_kv_consume("abi = \""@, abi_keyword(m.abi), t3);
    lemma_abi_keyword(m.abi);
    match m.bindings {
        Option::Some(b) => {
            lemma_bindings_consume_present(b, rest);
        },
        Option::None => {
            assert(t3 =~= rest);
            lemma_bindings_absent(rest);
        },
    }
    match sp_module(s) {
        Option::Some(q) => {
            assert(q.0 =~~= m);
        },
        Option::None => {
            assert(false);
        },
    }
}

/// Parsing the `[[module]]` sections back recovers the module list.
#[verifier::rlimit(100)]
#[verifier::spinoff_prover]
proof fn lemma_modules_consume(ms: Seq<ModuleView>, tail: Seq<char>)
    requires
        tail.len() == 0 || "[[command]]\n"@.is_prefix_of(tail) || "[fs]\n"@.is_prefix_of(tail),
    ensures
        sp_modules(emit_modules(ms) + tail) == Option::Some((ms, tail)),
    decreases ms.len(),
{
    let hdr = "[[module]]\n"@;
    reveal_strlit("[[module]]\n");
    reveal_strlit("[[command]]\n");
    reveal_strlit("[fs]\n");
    let s = emit_modules(ms) + tail;
    if ms.len() == 0 {
        assert(s =~= tail);
        if tail.len() == 0 {
            assert(hdr.len() > 0);
        } else if "[[command]]\n"@.is_prefix_of(tail) {
            lemma_prefix_index(tail, "[[command]]\n"@, 2);
            lemma_mismatch_not_prefix(hdr, tail, 2);
        } else {
            lemma_prefix_index(tail, "[fs]\n"@, 1);
            lemma_mismatch_not_prefix(hdr, tail, 1);
        }
        assert(sp_modules(s) == Option::Some((Seq::<ModuleView>::empty(), s)));
        assert(Seq::<ModuleView>::empty() =~= ms);
    } else {
        let rest = emit_modules(ms.skip(1)) + tail;
        assert(s =~= emit_module(ms[0]) + rest);
        if ms.skip(1).len() > 0 {
            assert(emit_modules(ms.skip(1)) == emit_module(ms.skip(1)[0]) + emit_modules(
                ms.skip(1).skip(1),
            ));
            assert(rest[0] == hdr[0]);
            assert(rest[0] == '[');
        } else {
            assert(rest =~= tail);
            if tail.len() > 0 {
                if "[[command]]\n"@.is_prefix_of(tail) {
                    lemma_prefix_index(tail, "[[command]]\n"@, 0);
                } else {
                    lemma_prefix_index(tail, "[fs]\n"@, 0);
                }
            }
        }
        lemma_module_consume(ms[0], rest);
        assert(hdr.is_prefix_of(s)) by {
            assert(s.subrange(0, hdr.len() as int) =~= hdr);
        }
        assert(emit_module(ms[0]).len() >= hdr.len());
        lemma_modules_consume(ms.skip(1), tail);
        assert(sp_modules(s) == Option::Some((seq![ms[0]] + ms.skip(1), tail)));
        assert(seq![ms[0]] + ms.skip(1) =~= ms);
    }
}

/// Parsing one `[[command]]` section back recovers the command.
proof fn lemma_command_consume(c: CommandView, rest: Seq<char>)
    ensures
        sp_command(emit_command(c) + rest) == Option::Some((c, rest)),
{
    let s = emit_command(c) + rest;
    let t2 = kv_line("package = \""@, c.package) + rest;
    let t1 = kv_line("module = \""@, c.module) + t2;
    let t0 = kv_line("name = \""@, c.name) + t1;
    assert(s =~= "[[command]]\n"@ + t0);
    lemma_lit_consume("[[command]]\n"@, t0);
    lemma_kv_consume("name = \""@, c.name, t1);
    lemma_kv_consume("module = \""@, c.module, t2);
    lemma_kv_consume("package = \""@, c.package, rest);
    match sp_command(s) {
        Option::Some(q) => {
            assert(q.0 =~~= c);
        },
        Option::None => {
            assert(false);
        },
    }
}

/// Parsing the `[[command]]` sections back recovers the command list.
#[verifier::rlimit(100)]
#[verifier::spinoff_prover]
proof fn lemma_commands_consume(cs: Seq<CommandView>, tail: Seq<char>)
    requires
        tail.len() == 0 || "[fs]\n"@.is_prefix_of(tail),
    ensures
        sp_commands(emit_commands(cs) + tail) == Option::Some((cs, tail)),
    decreases cs.len(),
{
    let hdr = "[[command]]\n"@;
    reveal_strlit("[[command]]\n");
    reveal_strlit("[fs]\n");
    let s = emit_commands(cs) + tail;
    if cs.len() == 0 {
        assert(s =~= tail);
        if tail.len() == 0 {
            assert(hdr.len() > 0);
        } else {
            lemma_prefix_index(tail, "[fs]\n"@, 1);
            lemma_mismatch_not_prefix(hdr, tail, 1);
        }
        assert(sp_commands(s) == Option::Some((Seq::<CommandView>::empty(), s)));
        assert(Seq::<CommandView>::empty() =~= cs);
    } else {
        let rest = emit_commands(cs.skip(1)) + tail;
        assert(s =~= emit_command(cs[0]) + rest);
        lemma_command_consume(cs[0], rest);
        assert(hdr.is_prefix_of(s)) by {
            assert(s.subrange(0, hdr.len() as int) =~= hdr);
        }
        assert(emit_command(cs[0]).len() >= hdr.len());
        lemma_commands_consume(cs.skip(1), tail);
        assert(sp_commands(s) == Option::Some((seq![cs[0]] + cs.skip(1), tail)));
        assert(seq![cs[0]] + cs.skip(1) =~= cs);
    }
}

/// Parsing one `[fs]` line back recovers the pair.
proof fn lemma_fs_pair_consume(k: Seq<char>, v: Seq<char>, rest: Seq<char>)
    ensures
        sp_fs_pair(emit_fs_pair(k, v) + rest) == Option::Some(((k, v), rest)),
{
    reveal_strlit("\"");
    reveal_strlit("\" = \"");
    reveal_strlit(" = \"");
    reveal_strlit("\"\n");
    reveal_strlit("\n");
    assert("\""@ =~= seq!['"']);
    assert("\" = \""@ =~= seq!['"'] + " = \""@);
    assert("\"\n"@ =~= seq!['"'] + "\n"@);
    let t3 = "\n"@ + rest;
    let t2 = escape(v) + seq!['"'] + t3;
    let t1 = " = \""@ + t2;
    let t0 = escape(k) + seq!['"'] + t1;
    let s = emit_fs_pair(k, v) + rest;
    assert(s =~= "\""@ + t0);
    lemma_lit_consume("\""@, t0);
    lemma_estr_consume(k, t1);
    lemma_lit_consume(" = \""@, t2);
    lemma_estr_consume(v, t3);
    lemma_lit_consume("\n"@, rest);
}

/// Parsing the `[fs]` lines back recovers the mapping.
proof fn lemma_fs_pairs_consume(ps: Seq<(Seq<char>, Seq<char>)>)
    ensures
        sp_fs_pairs(emit_fs_pairs(ps)) == Option::Some((ps, Seq::<char>::empty())),
    decreases ps.len(),
{
    reveal_strlit("\"");
    let hdr = "\""@;
    let s = emit_fs_pairs(ps);
    if ps.len() == 0 {
        assert(s =~= Seq::<char>::empty());
        assert(sp_fs_pairs(s) == Option::Some((Seq::<(Seq<char>, Seq<char>)>::empty(), s)));
        assert(Seq::<(Seq<char>, Seq<char>)>::empty() =~= ps);
    } else {
        let rest = emit_fs_pairs(ps.skip(1));
        assert(s =~= emit_fs_pair(ps[0].0, ps[0].1) + rest);
        lemma_fs_pair_consume(ps[0].0, ps[0].1, rest);
        assert(hdr.is_prefix_of(s)) by {
            assert(s.subrange(0, hdr.len() as int) =~= hdr);
        }
        assert(emit_fs_pair(ps[0].0, ps[0].1).len() >= hdr.len());
        lemma_fs_pairs_consume(ps.skip(1));
        assert(sp_fs_pairs(s) == Option::Some((seq![ps[0]] + ps.skip(1), Seq::<char>::empty())));
        assert((ps[0].0, ps[0].1) == ps[0]);
        assert(seq![ps[0]] + ps.skip(1) =~= ps);
    }
}

/// Parsing the `[fs]` section back recovers the mapping.
proof fn lemma_fs_consume(ps: Seq<(Seq<char>, Seq<char>)>)
    ensures
        sp_fs(emit_fs(ps)) == Option::Some((ps, Seq::<char>::empty())),
{
    reveal_strlit("[fs]\n");
    let hdr = "[fs]\n"@;
    if ps.len() == 0 {
        assert(emit_fs(ps) =~= Seq::<char>::empty());
        assert(hdr.len() > 0);
        assert(!hdr.is_prefix_of(emit_fs(ps)));
        assert(Seq::<(Seq<char>, Seq<char>)>::empty() =~= ps);
    } else {
        let s = emit_fs(ps);
        assert(s =~= hdr + emit_fs_pairs(ps));
        lemma_lit_consume(hdr, emit_fs_pairs(ps));
        assert(hdr.is_prefix_of(s)) by {
            assert(s.subrange(0, hdr.len() as int) =~= hdr);
        }
        lemma_fs_pairs_consume(ps);
    }
}

/// Serializing a descriptor and re-parsing it yields the original value, for
/// every field, including the optional and repeated ones.
#[verifier::rlimit(100)]
#[verifier::spinoff_prover]
pub proof fn lemma_manifest_round_trip(m: ManifestView)
    ensures
        spec_parse_manifest(spec_emit_manifest(m)) == Option::Some(m),
{
    reveal_strlit("[[module]]\n");
    reveal_strlit("[[command]]\n");
    reveal_strlit("[fs]\n");
    let s = spec_emit_manifest(m);
    let t3 = emit_fs(m.fs);
    let t2 = emit_commands(m.commands) + t3;
    let t1 = emit_modules(m.modules) + t2;
    assert(s =~= emit_package(m.package) + t1);
    if m.modules.len() > 0 {
        assert(emit_modules(m.modules) == emit_module(m.modules[0]) + emit_modules(
            m.modules.skip(1),
        ));
        assert(t1[0] == '[');
    } else if m.commands.len() > 0 {
        assert(emit_commands(m.commands) == emit_command(m.commands[0]) + emit_commands(
            m.commands.skip(1),
        ));
        assert(t1 =~= t2);
        assert(t1[0] == '[');
    } else if m.fs.len() > 0 {
        assert(t1 =~= t3);
        assert(t1[0] == '[');
    } else {
        assert(t1 =~= Seq::<char>::empty());
    }
    lemma_package_consume(m.package, t1);
    if m.commands.len() > 0 {
        assert(emit_commands(m.commands) == emit_command(m.commands[0]) + emit_commands(
            m.commands.skip(1),
        ));
        assert("[[command]]\n"@.is_prefix_of(t2)) by {
            assert(t2.subrange(0, "[[command]]\n"@.len() as int) =~= "[[command]]\n"@);
        }
    } else if m.fs.len() > 0 {
        assert(t2 =~= t3);
        assert("[fs]\n"@.is_prefix_of(t2)) by {
            assert(t2.subrange(0, "[fs]\n"@.len() as int) =~= "[fs]\n"@);
        }
    } else {
        assert(t2 =~= Seq::<char>::empty());
    }
    lemma_modules_consume(m.modules, t2);
    if m.fs.len() > 0 {
        assert("[fs]\n"@.is_prefix_of(t3)) by {
            assert(t3.subrange(0, "[fs]\n"@.len() as int) =~= "[fs]\n"@);
        }
    } else {
        assert(t3 =~= Seq::<char>::empty());
    }
    lemma_commands_consume(m.commands, t3);
    lemma_fs_consume(m.fs);
    match spec_parse_manifest(s) {
        Option::Some(mv) => {
            assert(mv =~~= m);
        },
        Option::None => {
            assert(false);
        },
    }
}

} // verus!
