//! The model loader's GGUF queries: the quantization a header declares, the
//! model settings it records, and a tensor's bytes found by name.

use vstd::prelude::*;

use crate::error::RunnerError;
use crate::gguf_parser::{
    extract_fail_msg, extract_tensor_bytes_from, header_of, parse_gguf_reader, sp_layout,
    GgufError, GgufErrorView,
};
use crate::gguf_types::{
    dtype_code, dtype_of, is_first_tensor, lookup_arch_i32, lookup_arch_u32, lookup_str, opt_str_view,
    shape_product, shape_products_fit, GgufDtype, GgufHeader, TensorInfoView,
};
use crate::text::{is_digit, parse_u32, parsed_u32, push_str};

verus! {

#[verifier::external_type_specification]
#[verifier::external_body]
pub struct ExSqliteConnection(rusqlite::Connection);

/// Loads model weights; holds the connection to the weights database.
pub struct ModelLoader {
    pub conn: rusqlite::Connection,
}

/// The dtype a quantization name in `general.file_type` stands for; a name
/// that is not one of these is `Unknown(0)`.
pub open spec fn quant_name_dtype(s: Seq<char>) -> GgufDtype {
    if s == "F16"@ {
        GgufDtype::F16
    } else if s == "F32"@ {
        GgufDtype::F32
    } else if s == "Q4_0"@ {
        GgufDtype::Q4_0
    } else if s == "Q4_1"@ {
        GgufDtype::Q4_1
    } else if s == "Q5_0"@ {
        GgufDtype::Q5_0
    } else if s == "Q5_1"@ {
        GgufDtype::Q5_1
    } else if s == "Q8_0"@ {
        GgufDtype::Q8_0
    } else if s == "Q8_1"@ {
        GgufDtype::Q8_1
    } else if s == "Q2_K"@ {
        GgufDtype::Q2_K
    } else if s == "Q3_K"@ {
        GgufDtype::Q3_K
    } else if s == "Q4_K"@ {
        GgufDtype::Q4_K
    } else if s == "Q5_K"@ {
        GgufDtype::Q5_K
    } else if s == "Q6_K"@ {
        GgufDtype::Q6_K
    } else if s == "Q8_K"@ {
        GgufDtype::Q8_K
    } else if s == "BF16"@ {
        GgufDtype::BF16
    } else {
        GgufDtype::Unknown(0)
    }
}

/// The quantization a header declares: the text under `general.file_type`,
/// read as a dtype code when it is a decimal number and as a dtype name
/// otherwise; none when there is no such text.
pub open spec fn declared_quantization(header: crate::gguf_types::HeaderView) -> Option<GgufDtype> {
    match lookup_str(header.kv_pairs, "general.file_type"@) {
        None => None,
        Some(s) => Some(
            match parsed_u32(s) {
                Some(n) => dtype_of(n),
                None => quant_name_dtype(s),
            },
        ),
    }
}

/// The first tensor entry with the given name, if any.
pub open spec fn named_tensor(ts: Seq<TensorInfoView>, name: Seq<char>) -> Option<TensorInfoView> {
    if exists|i: int| is_first_tensor(ts, name, i) {
        Some(ts[choose|i: int| is_first_tensor(ts, name, i)])
    } else {
        None
    }
}

/// Message of a tensor that a file does not hold.
pub open spec fn missing_tensor_msg(name: Seq<char>) -> Seq<char> {
    "tensor '"@ + name + "' not found"@
}

/// Whether two texts are the same.
fn same_text(a: &str, b: &str) -> (r: bool)
    ensures
        r == (a@ == b@),
{
    a.to_string() == b.to_string()
}

impl ModelLoader {
    pub fn new(conn: rusqlite::Connection) -> (r: ModelLoader)
        ensures
            r.conn == conn,
    {
        ModelLoader { conn }
    }

    /// The quantization the header declares under `general.file_type`.
    pub fn detect_quantization(header: &GgufHeader) -> (r: Option<GgufDtype>)
        ensures
            r == declared_quantization(header@),
    {
        match header.get_kv_str("general.file_type") {
            None => None,
            Some(s) => match parse_u32(s) {
                Some(n) => Some(GgufDtype::from_u32(n)),
                None => Some(Self::quant_name(s)),
            },
        }
    }

    /// The dtype of a quantization name.
    fn quant_name(s: &str) -> (r: GgufDtype)
        ensures
            r == quant_name_dtype(s@),
    {
        if same_text(s, "F16") {
            GgufDtype::F16
        } else if same_text(s, "F32") {
            GgufDtype::F32
        } else if same_text(s, "Q4_0") {
            GgufDtype::Q4_0
        } else if same_text(s, "Q4_1") {
            GgufDtype::Q4_1
        } else if same_text(s, "Q5_0") {
            GgufDtype::Q5_0
        } else if same_text(s, "Q5_1") {
            GgufDtype::Q5_1
        } else if same_text(s, "Q8_0") {
            GgufDtype::Q8_0
        } else if same_text(s, "Q8_1") {
            GgufDtype::Q8_1
        } else if same_text(s, "Q2_K") {
            GgufDtype::Q2_K
        } else if same_text(s, "Q3_K") {
            GgufDtype::Q3_K
        } else if same_text(s, "Q4_K") {
            GgufDtype::Q4_K
        } else if same_text(s, "Q5_K") {
            GgufDtype::Q5_K
        } else if same_text(s, "Q6_K") {
            GgufDtype::Q6_K
        } else if same_text(s, "Q8_K") {
            GgufDtype::Q8_K
        } else if same_text(s, "BF16") {
            GgufDtype::BF16
        } else {
            GgufDtype::Unknown(0)
        }
    }

    /// Reads a tensor from a GGUF file's bytes by name: as many bytes as the
    /// tensor has elements, starting at the tensor's recorded offset counted
    /// from the start of the file.
    pub fn extract_gguf_tensor(data: &[u8], tensor_name: &str) -> (r: Result<Vec<u8>, RunnerError>)
        requires
            data@.len() <= isize::MAX,
            sp_layout(data@) matches Ok(l) ==> (named_tensor(header_of(l).tensors, tensor_name@) matches Some(
                t,
            ) ==> shape_products_fit(t.shape)),
        ensures
            match sp_layout(data@) {
                Err(e) => r matches Err(RunnerError::Gguf(g)) && g@ == e,
                Ok(l) => match named_tensor(header_of(l).tensors, tensor_name@) {
                    None => r matches Err(RunnerError::Gguf(g)) && g@ == GgufErrorView::InvalidTensor(
                        missing_tensor_msg(tensor_name@),
                    ),
                    Some(t) => {
                        let size = shape_product(t.shape) as usize;
                        match r {
                            Ok(b) => t.offset + size <= data@.len() && b@ == data@.subrange(
                                t.offset as int,
                                t.offset + size,
                            ),
                            Err(e) => t.offset + size > data@.len() && (e matches RunnerError::Gguf(
                                g,
                            ) && g@ == GgufErrorView::Io(
                                extract_fail_msg(size as nat, t.offset as nat),
                            )),
                        }
                    },
                },
            },
    {
        let header = match parse_gguf_reader(data) {
            Ok(h) => h,
            Err(e) => return Err(RunnerError::Gguf(e)),
        };
        match header.get_tensor(tensor_name) {
            None => {
                let mut m = String::new();
                push_str(&mut m, "tensor '");
                push_str(&mut m, tensor_name);
                push_str(&mut m, "' not found");
                Err(RunnerError::Gguf(GgufError::InvalidTensor(m)))
            },
            Some(tensor) => {
                proof {
                    let ts = header@.tensors;
                    let i = choose|i: int| is_first_tensor(ts, tensor_name@, i) && ts[i] == tensor@;
                    let j = choose|j: int| is_first_tensor(ts, tensor_name@, j);
                    assert(i == j);
                }
                let size = tensor.element_count() as usize;
                match extract_tensor_bytes_from(data, tensor.offset, size) {
                    Ok(b) => Ok(b),
                    Err(e) => Err(RunnerError::Gguf(e)),
                }
            },
        }
    }

    /// The model architecture (`general.architecture`).
    pub fn gguf_architecture(header: &GgufHeader) -> (r: Option<&str>)
        ensures
            opt_str_view(r) == lookup_str(header@.kv_pairs, "general.architecture"@),
    {
        header.architecture()
    }

    /// Context length (`<arch>.context_length`).
    pub fn gguf_context_length(header: &GgufHeader) -> (r: Option<u32>)
        ensures
            r == lookup_arch_u32(header@.kv_pairs, ".context_length"@),
    {
        header.context_length()
    }

    /// Embedding length (`<arch>.embedding_length`).
    pub fn gguf_embedding_length(header: &GgufHeader) -> (r: Option<u32>)
        ensures
            r == lookup_arch_u32(header@.kv_pairs, ".embedding_length"@),
    {
        header.embedding_length()
    }

    /// Number of layers (`<arch>.block_count`).
    pub fn gguf_block_count(header: &GgufHeader) -> (r: Option<u32>)
        ensures
            r == lookup_arch_u32(header@.kv_pairs, ".block_count"@),
    {
        header.block_count()
    }

    /// Attention head count (`<arch>.attention.head_count`).
    pub fn gguf_attention_head_count(header: &GgufHeader) -> (r: Option<u32>)
        ensures
            r == lookup_arch_u32(header@.kv_pairs, ".attention.head_count"@),
    {
        header.attention_head_count()
    }

    /// KV attention head count (`<arch>.attention.head_count_kv`).
    pub fn gguf_attention_head_count_kv(header: &GgufHeader) -> (r: Option<u32>)
        ensures
            r == lookup_arch_u32(header@.kv_pairs, ".attention.head_count_kv"@),
    {
        header.attention_head_count_kv()
    }

    /// RoPE dimension count (`<arch>.rope.dimension_count`).
    pub fn gguf_rope_dimension_count(header: &GgufHeader) -> (r: Option<i32>)
        ensures
            r == lookup_arch_i32(header@.kv_pairs, ".rope.dimension_count"@),
    {
        header.rope_dimension_count()
    }
}

/// The GGUF type codes of the quantization names `general.file_type` may
/// hold, as the format numbers them.
pub open spec fn ggml_type_name(name: Seq<char>, code: u32) -> bool {
    ||| name == "F32"@ && code == 0
    ||| name == "F16"@ && code == 1
    ||| name == "Q4_0"@ && code == 2
    ||| name == "Q4_1"@ && code == 3
    ||| name == "Q5_0"@ && code == 6
    ||| name == "Q5_1"@ && code == 7
    ||| name == "Q8_0"@ && code == 8
    ||| name == "Q8_1"@ && code == 9
    ||| name == "Q2_K"@ && code == 10
    ||| name == "Q3_K"@ && code == 11
    ||| name == "Q4_K"@ && code == 12
    ||| name == "Q5_K"@ && code == 13
    ||| name == "Q6_K"@ && code == 14
    ||| name == "Q8_K"@ && code == 15
    ||| name == "BF16"@ && code == 30
}

/// Law: a quantization named in `general.file_type` is detected as the dtype
/// whose GGUF code the format gives that name, the same dtype a header
/// holding that code gets.
pub proof fn lemma_quant_name_is_its_code(header: crate::gguf_types::HeaderView, name: Seq<char>, code: u32)
    requires
        lookup_str(header.kv_pairs, "general.file_type"@) == Some(name),
        ggml_type_name(name, code),
    ensures
        declared_quantization(header) == Some(dtype_of(code)),
        dtype_code(dtype_of(code)) == code,
{
    reveal_strlit("F32");
    reveal_strlit("F16");
    reveal_strlit("Q4_0");
    reveal_strlit("Q4_1");
    reveal_strlit("Q5_0");
    reveal_strlit("Q5_1");
    reveal_strlit("Q8_0");
    reveal_strlit("Q8_1");
    reveal_strlit("Q2_K");
    reveal_strlit("Q3_K");
    reveal_strlit("Q4_K");
    reveal_strlit("Q5_K");
    reveal_strlit("Q6_K");
    reveal_strlit("Q8_K");
    reveal_strlit("BF16");
    if name == "F32"@ {
        assert(name.len() == 3 && name[0] == 'F' && name[1] == '3' && name[2] == '2');
    }
    if name == "F16"@ {
        assert(name.len() == 3 && name[0] == 'F' && name[1] == '1' && name[2] == '6');
    }
    if name == "Q4_0"@ {
        assert(name.len() == 4 && name[0] == 'Q' && name[1] == '4' && name[2] == '_' && name[3] == '0');
    }
    if name == "Q4_1"@ {
        assert(name.len() == 4 && name[0] == 'Q' && name[1] == '4' && name[2] == '_' && name[3] == '1');
    }
    if name == "Q5_0"@ {
        assert(name.len() == 4 && name[0] == 'Q' && name[1] == '5' && name[2] == '_' && name[3] == '0');
    }
    if name == "Q5_1"@ {
        assert(name.len() == 4 && name[0] == 'Q' && name[1] == '5' && name[2] == '_' && name[3] == '1');
    }
    if name == "Q8_0"@ {
        assert(name.len() == 4 && name[0] == 'Q' && name[1] == '8' && name[2] == '_' && name[3] == '0');
    }
    if name == "Q8_1"@ {
        assert(name.len() == 4 && name[0] == 'Q' && name[1] == '8' && name[2] == '_' && name[3] == '1');
    }
    if name == "Q2_K"@ {
        assert(name.len() == 4 && name[0] == 'Q' && name[1] == '2' && name[2] == '_' && name[3] == 'K');
    }
    if name == "Q3_K"@ {
        assert(name.len() == 4 && name[0] == 'Q' && name[1] == '3' && name[2] == '_' && name[3] == 'K');
    }
    if name == "Q4_K"@ {
        assert(name.len() == 4 && name[0] == 'Q' && name[1] == '4' && name[2] == '_' && name[3] == 'K');
    }
    if name == "Q5_K"@ {
        assert(name.len() == 4 && name[0] == 'Q' && name[1] == '5' && name[2] == '_' && name[3] == 'K');
    }
    if name == "Q6_K"@ {
        assert(name.len() == 4 && name[0] == 'Q' && name[1] == '6' && name[2] == '_' && name[3] == 'K');
    }
    if name == "Q8_K"@ {
        assert(name.len() == 4 && name[0] == 'Q' && name[1] == '8' && name[2] == '_' && name[3] == 'K');
    }
    if name == "BF16"@ {
        assert(name.len() == 4 && name[0] == 'B' && name[1] == 'F' && name[2] == '1' && name[3] == '6');
    }
    assert(!is_digit(name[0]));
    assert(parsed_u32(name) is None);
}

} // verus!
