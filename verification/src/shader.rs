use vstd::prelude::*;

verus! {

/// The shader stages the VR pipeline has precompiled SPIR-V for; every
/// other stage is `Other`.
#[derive(Debug, Clone, Copy, PartialEq, Eq, Structural)]
pub enum ShaderKind {
    Vertex,
    Fragment,
    Other,
}

/// No precompiled SPIR-V exists for the requested stage.
#[derive(Debug, Clone, Copy, PartialEq, Eq, Structural)]
pub enum ShaderError {
    UnsupportedShaderKind,
}

/// Where the precompiled SPIR-V of a shader stage is stored.
pub fn spirv_path(kind: ShaderKind) -> (path: Result<&'static str, ShaderError>)
    ensures
        kind == ShaderKind::Vertex ==> (path matches Ok(p) && p@ == "src/vr/shaders/vertex.spv"@),
        kind == ShaderKind::Fragment ==> (path matches Ok(p) && p@ == "src/vr/shaders/fragment.spv"@),
        kind == ShaderKind::Other ==> path == Err::<&'static str, ShaderError>(ShaderError::UnsupportedShaderKind),
{
    match kind {
        ShaderKind::Vertex => Ok("src/vr/shaders/vertex.spv"),
        ShaderKind::Fragment => Ok("src/vr/shaders/fragment.spv"),
        ShaderKind::Other => Err(ShaderError::UnsupportedShaderKind),
    }
}

/// The word whose bytes, least significant first, are `b0` to `b3`.
pub open spec fn le_word(b0: u8, b1: u8, b2: u8, b3: u8) -> int {
    b0 + 256 * b1 + 65536 * b2 + 16777216 * b3
}

/// Calls `u32::from_ne_bytes`, which reads the four bytes in the byte order
/// of the machine: the result is the little-endian or the big-endian
/// reading of them. Which of the two is not stated: it is the target's.
#[verifier::external_body]
fn u32_from_ne_bytes(b0: u8, b1: u8, b2: u8, b3: u8) -> (w: u32)
    ensures
        w == le_word(b0, b1, b2, b3) || w == le_word(b3, b2, b1, b0),
{
    u32::from_ne_bytes([b0, b1, b2, b3])
}

/// Every word is the reading of its four bytes in one byte order: least
/// significant byte first when `little`, most significant first otherwise.
pub open spec fn words_in_order(bytes: Seq<u8>, words: Seq<u32>, little: bool) -> bool {
    &&& words.len() == bytes.len() / 4
    &&& forall|i: int|
        0 <= i < words.len() ==> #[trigger] words[i] == (if little {
            le_word(bytes[4 * i], bytes[4 * i + 1], bytes[4 * i + 2], bytes[4 * i + 3])
        } else {
            le_word(bytes[4 * i + 3], bytes[4 * i + 2], bytes[4 * i + 1], bytes[4 * i])
        })
}

/// SPIR-V words from the bytes of a `.spv` file, four bytes per word in the
/// machine's byte order; trailing bytes that do not fill a word are dropped.
/// The order is learnt once, by reading the bytes `1, 0, 0, 0` natively.
pub fn spirv_words(bytes: &[u8]) -> (words: Vec<u32>)
    ensures
        words_in_order(bytes@, words@, true) || words_in_order(bytes@, words@, false),
{
    let probe = u32_from_ne_bytes(1, 0, 0, 0);
    let little = probe == 1;
    let mut words: Vec<u32> = Vec::new();
    let len = bytes.len();
    let count = len / 4;
    let mut i: usize = 0;
    while i < count
        invariant
            count == bytes@.len() / 4,
            len == bytes@.len(),
            i <= count,
            words@.len() == i,
            forall|k: int|
                0 <= k < i ==> #[trigger] words@[k] == (if little {
                    le_word(bytes@[4 * k], bytes@[4 * k + 1], bytes@[4 * k + 2], bytes@[4 * k + 3])
                } else {
                    le_word(bytes@[4 * k + 3], bytes@[4 * k + 2], bytes@[4 * k + 1], bytes@[4 * k])
                }),
        decreases count - i,
    {
        assert(4 * i + 4 <= len) by (nonlinear_arith)
            requires i < count, count == len / 4;
        let base = 4 * i;
        let (b0, b1, b2, b3) = if little {
            (bytes[base], bytes[base + 1], bytes[base + 2], bytes[base + 3])
        } else {
            (bytes[base + 3], bytes[base + 2], bytes[base + 1], bytes[base])
        };
        let w: u32 = b0 as u32 + 256 * (b1 as u32) + 65536 * (b2 as u32) + 16777216 * (b3 as u32);
        words.push(w);
        i = i + 1;
    }
    proof {
        if little {
            assert(words_in_order(bytes@, words@, true));
        } else {
            assert(words_in_order(bytes@, words@, false));
        }
    }
    words
}

} // verus!
