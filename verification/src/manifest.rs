//! The descriptor written into an assembled bundle: package identity, the
//! modules it ships, the commands it exposes, and its filesystem mappings.

use vstd::prelude::*;

verus! {

/// The execution-environment contract a module is compiled against. It
/// determines the compiler's target triple.
#[derive(Debug, Copy, Clone, PartialEq, Eq, Structural)]
pub enum Abi {
    Wasi,
    Emscripten,
    NoAbi,
}

impl Abi {
    /// The target triple `target` returns, as a sequence of characters.
    pub open spec fn target_triple(self) -> Seq<char> {
        match self {
            Abi::Wasi => "wasm32-wasi"@,
            Abi::Emscripten => "wasm32-unknown-emscripten"@,
            Abi::NoAbi => "wasm32-unknown-unknown"@,
        }
    }

    /// The compiler target triple selected by this ABI.
    pub fn target(self) -> (r: &'static str)
        ensures
            r@ == self.target_triple(),
    {
        match self {
            Abi::Wasi => "wasm32-wasi",
            Abi::Emscripten => "wasm32-unknown-emscripten",
            Abi::NoAbi => "wasm32-unknown-unknown",
        }
    }
}

/// A reference to an interface-description file shipped with a module.
#[derive(Debug, Clone, PartialEq, Eq)]
pub struct Bindings {
    /// Path of the interface-description file, relative to the package base
    /// directory.
    pub exports: String,
    /// Version tag of the interface-description format.
    pub wit_bindgen: String,
}

/// Mathematical value of a [`Bindings`].
#[verifier::ext_equal]
pub struct BindingsView {
    pub exports: Seq<char>,
    pub wit_bindgen: Seq<char>,
}

impl View for Bindings {
    type V = BindingsView;

    open spec fn view(&self) -> BindingsView {
        BindingsView { exports: self.exports@, wit_bindgen: self.wit_bindgen@ }
    }
}

/// Identity fields of the packaged crate as they appear in the descriptor.
#[derive(Debug, Clone, PartialEq, Eq)]
pub struct Package {
    pub name: String,
    pub version: String,
    pub description: String,
    pub license: Option<String>,
    pub license_file: Option<String>,
    pub readme: Option<String>,
    pub repository: Option<String>,
    pub homepage: Option<String>,
    pub wasmer_extra_flags: Option<String>,
}

/// The value of an optional string field.
pub open spec fn opt_view(o: Option<String>) -> Option<Seq<char>> {
    match o {
        Option::Some(s) => Option::Some(s@),
        Option::None => Option::None,
    }
}

/// Mathematical value of a [`Package`].
#[verifier::ext_equal]
pub struct PackageView {
    pub name: Seq<char>,
    pub version: Seq<char>,
    pub description: Seq<char>,
    pub license: Option<Seq<char>>,
    pub license_file: Option<Seq<char>>,
    pub readme: Option<Seq<char>>,
    pub repository: Option<Seq<char>>,
    pub homepage: Option<Seq<char>>,
    pub wasmer_extra_flags: Option<Seq<char>>,
}

impl View for Package {
    type V = PackageView;

    open spec fn view(&self) -> PackageView {
        PackageView {
            name: self.name@,
            version: self.version@,
            description: self.description@,
            license: opt_view(self.license),
            license_file: opt_view(self.license_file),
            readme: opt_view(self.readme),
            repository: opt_view(self.repository),
            homepage: opt_view(self.homepage),
            wasmer_extra_flags: opt_view(self.wasmer_extra_flags),
        }
    }
}

/// One compiled artifact listed in the descriptor.
#[derive(Debug, Clone, PartialEq, Eq)]
pub struct Module {
    pub name: String,
    /// File name of the compiled artifact inside the bundle.
    pub source: String,
    pub abi: Abi,
    pub bindings: Option<Bindings>,
}

/// Mathematical value of a [`Module`].
#[verifier::ext_equal]
pub struct ModuleView {
    pub name: Seq<char>,
    pub source: Seq<char>,
    pub abi: Abi,
    pub bindings: Option<BindingsView>,
}

impl View for Module {
    type V = ModuleView;

    open spec fn view(&self) -> ModuleView {
        ModuleView {
            name: self.name@,
            source: self.source@,
            abi: self.abi,
            bindings: match self.bindings {
                Option::Some(b) => Option::Some(b@),
                Option::None => Option::None,
            },
        }
    }
}

/// A runnable entry point of the package; exists exactly for binary targets.
#[derive(Debug, Clone, PartialEq, Eq)]
pub struct Command {
    pub name: String,
    pub module: String,
    pub package: String,
}

/// Mathematical value of a [`Command`].
#[verifier::ext_equal]
pub struct CommandView {
    pub name: Seq<char>,
    pub module: Seq<char>,
    pub package: Seq<char>,
}

impl View for Command {
    type V = CommandView;

    open spec fn view(&self) -> CommandView {
        CommandView { name: self.name@, module: self.module@, package: self.package@ }
    }
}

/// The full descriptor serialized into a bundle.
#[derive(Debug, Clone, PartialEq, Eq)]
pub struct Manifest {
    pub package: Package,
    pub modules: Vec<Module>,
    pub commands: Vec<Command>,
    /// Ordered mapping of mount path to host path, copied through unchanged.
    pub fs: Vec<(String, String)>,
}

/// Mathematical value of a [`Manifest`].
#[verifier::ext_equal]
pub struct ManifestView {
    pub package: PackageView,
    pub modules: Seq<ModuleView>,
    pub commands: Seq<CommandView>,
    pub fs: Seq<(Seq<char>, Seq<char>)>,
}

impl View for Manifest {
    type V = ManifestView;

    open spec fn view(&self) -> ManifestView {
        ManifestView {
            package: self.package@,
            modules: self.modules@.map_values(|m: Module| m@),
            commands: self.commands@.map_values(|c: Command| c@),
            fs: self.fs@.map_values(|p: (String, String)| (p.0@, p.1@)),
        }
    }
}

} // verus!
