use vstd::prelude::*;

verus! {

/// The model file formats the loader reads.
#[derive(Debug, Clone, Copy, PartialEq, Eq, Structural)]
pub enum ModelFormat {
    /// glTF, as `.gltf` text or `.glb` binary.
    Gltf,
    /// Wavefront OBJ.
    Obj,
}

/// `c` is `w`, or its upper-case ASCII form when `w` is a lower-case ASCII letter.
pub open spec fn matches_ignoring_case(c: char, w: char) -> bool {
    c == w || ('a' <= w <= 'z' && (c as u32) + 32 == (w as u32))
}

/// `ext`, lower-cased, is `word` (a lower-case ASCII word).
pub open spec fn extension_is(ext: Seq<char>, word: Seq<char>) -> bool {
    &&& ext.len() == word.len()
    &&& forall|i: int| 0 <= i < ext.len() ==> matches_ignoring_case(#[trigger] ext[i], word[i])
}

/// The format that a file extension names, compared without regard to case.
pub open spec fn format_for_extension(ext: Seq<char>) -> Option<ModelFormat> {
    if extension_is(ext, seq!['g', 'l', 'b']) || extension_is(ext, seq!['g', 'l', 't', 'f']) {
        Some(ModelFormat::Gltf)
    } else if extension_is(ext, seq!['o', 'b', 'j']) {
        Some(ModelFormat::Obj)
    } else {
        None
    }
}

fn extension_matches(ext: &Vec<char>, word: &[char]) -> (b: bool)
    ensures
        b == extension_is(ext@, word@),
{
    if ext.len() != word.len() {
        return false;
    }
    let mut i: usize = 0;
    while i < ext.len()
        invariant
            ext@.len() == word@.len(),
            i <= ext@.len(),
            forall|j: int| 0 <= j < i ==> matches_ignoring_case(#[trigger] ext@[j], word@[j]),
        decreases ext@.len() - i,
    {
        let c = ext[i];
        let w = word[i];
        let same = c == w || ('a' <= w && w <= 'z' && (c as u32) == (w as u32) - 32);
        if !same {
            assert(!matches_ignoring_case(ext@[i as int], word@[i as int]));
            return false;
        }
        i = i + 1;
    }
    true
}

/// The format of a model file from its extension: `glb` and `gltf` are
/// glTF, `obj` is OBJ, in any mix of upper and lower case; anything else is
/// not supported.
///
/// Lower-casing with `str::to_lowercase` can only turn a character into one
/// of these ASCII letters when it is that letter or its upper-case form, so
/// this comparison agrees with lower-casing the extension first.
pub fn model_format(ext: &Vec<char>) -> (f: Option<ModelFormat>)
    ensures
        f == format_for_extension(ext@),
{
    let glb: [char; 3] = ['g', 'l', 'b'];
    let gltf: [char; 4] = ['g', 'l', 't', 'f'];
    let obj: [char; 3] = ['o', 'b', 'j'];
    proof {
        assert(glb@ =~= seq!['g', 'l', 'b']);
        assert(gltf@ =~= seq!['g', 'l', 't', 'f']);
        assert(obj@ =~= seq!['o', 'b', 'j']);
    }
    if extension_matches(ext, glb.as_slice()) || extension_matches(ext, gltf.as_slice()) {
        Some(ModelFormat::Gltf)
    } else if extension_matches(ext, obj.as_slice()) {
        Some(ModelFormat::Obj)
    } else {
        None
    }
}

} // verus!
