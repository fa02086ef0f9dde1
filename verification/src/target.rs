use vstd::prelude::*;

verus! {

/// The declared kind of a single buildable unit of a manifest.
///
/// A library target records whether it is additionally built as a generic
/// dynamic library or as a C-compatible dynamic library; every other kind
/// carries no further detail that the operation reads.
#[derive(Clone, Copy, Debug, PartialEq, Eq, Structural)]
pub enum TargetKind {
    Library { dylib: bool, cdylib: bool },
    Binary,
    Example,
    Test,
    Bench,
    CustomBuild,
}

/// What the operation reads of one build target declared in a manifest:
/// its declared name and its kind.
pub struct TargetInfo {
    pub name: String,
    pub kind: TargetKind,
}

/// The mathematical value of a [`TargetInfo`].
#[verifier::ext_equal]
pub ghost struct TargetInfoView {
    pub name: Seq<char>,
    pub kind: TargetKind,
}

impl View for TargetInfo {
    type V = TargetInfoView;

    open spec fn view(&self) -> TargetInfoView {
        TargetInfoView { name: self.name@, kind: self.kind }
    }
}

/// Whether a target of this kind is a library.
pub open spec fn kind_is_lib(k: TargetKind) -> bool {
    k matches TargetKind::Library { .. }
}

/// Whether a target of this kind is built as a generic dynamic library.
pub open spec fn kind_is_dylib(k: TargetKind) -> bool {
    match k {
        TargetKind::Library { dylib, .. } => dylib,
        _ => false,
    }
}

/// Whether a target of this kind is built as a C-compatible dynamic library.
pub open spec fn kind_is_cdylib(k: TargetKind) -> bool {
    match k {
        TargetKind::Library { cdylib, .. } => cdylib,
        _ => false,
    }
}

/// The crate name of a target: its declared name with every `-` replaced
/// by `_`.
pub open spec fn crate_name_of(name: Seq<char>) -> Seq<char> {
    name.map_values(|c: char| if c == '-' { '_' } else { c })
}

impl TargetInfo {
    /// The crate name of this target.
    pub fn crate_name(&self) -> (r: String)
        ensures
            r@ == crate_name_of(self@.name),
    {
        let n = self.name.as_str().unicode_len();
        let mut out = String::new();
        let mut i: usize = 0;
        while i < n
            invariant
                n == self.name@.len(),
                i <= n,
                out@.len() == i,
                forall|j: int|
                    0 <= j < i ==> out@[j] == (if self.name@[j] == '-' {
                        '_'
                    } else {
                        self.name@[j]
                    }),
            decreases n - i,
        {
            let c = self.name.as_str().get_char(i);
            if c == '-' {
                crate::strutil::push_char(&mut out, '_');
            } else {
                crate::strutil::push_char(&mut out, c);
            }
            i = i + 1;
        }
        proof {
            assert(out@ =~= crate_name_of(self@.name));
        }
        out
    }
}

} // verus!
