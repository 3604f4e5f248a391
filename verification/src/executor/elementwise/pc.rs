//! Push constants of the elementwise kernels, field for field as the shaders
//! declare them.

use crate::dtype::Scalar;
use crate::push::{encode, encodes, layout_bytes, Field};
use vstd::prelude::*;

verus! {

/// Push-constant budget of the shared elementwise layout; well under the
/// least that any device offers.
pub const ELEMENTWISE_PC_BYTES: usize = 80;

/// Row softmax.
#[derive(Copy, Clone, Debug)]
pub struct SoftmaxPc {
    pub rows: u32,
    pub cols: u32,
    pub valid_base: u32,
    pub rows_per_group: u32,
    pub causal: u32,
    pub scale: Scalar,
    pub in_ptr: u64,
    pub out_ptr: u64,
}

impl SoftmaxPc {
    /// The fields in memory order.
    pub open spec fn layout(self) -> Seq<Field> {
        seq![
            Field::Word(self.rows),
            Field::Word(self.cols),
            Field::Word(self.valid_base),
            Field::Word(self.rows_per_group),
            Field::Word(self.causal),
            Field::Word(self.scale.bits),
            Field::Address(self.in_ptr),
            Field::Address(self.out_ptr),
        ]
    }

    /// The fields in memory order: 40 bytes.
    pub fn fields(&self) -> (r: Vec<Field>)
        ensures
            r@ == self.layout(),
            layout_bytes(r@) == 40,
    {
        let fields: Vec<Field> = vec![
            Field::Word(self.rows),
            Field::Word(self.cols),
            Field::Word(self.valid_base),
            Field::Word(self.rows_per_group),
            Field::Word(self.causal),
            Field::Word(self.scale.bits),
            Field::Address(self.in_ptr),
            Field::Address(self.out_ptr),
        ];
        assert(fields@ =~= self.layout());
        proof {
            reveal_with_fuel(layout_bytes, 9);
        }
        fields
    }

    /// The block as the shader reads it, in the machine's byte order.
    pub fn bytes(&self) -> (r: Vec<u8>)
        ensures
            encodes(r@, self.layout()),
            r@.len() == 40,
    {
        encode(&self.fields())
    }
}

/// RMSNorm and LayerNorm.
#[derive(Copy, Clone, Debug)]
pub struct NormPc {
    pub rows: u32,
    pub cols: u32,
    pub eps: Scalar,
    pub pad: u32,
    pub in_ptr: u64,
    pub out_ptr: u64,
    pub weight_ptr: u64,
    pub bias_ptr: u64,
}

impl NormPc {
    /// The fields in memory order.
    pub open spec fn layout(self) -> Seq<Field> {
        seq![
            Field::Word(self.rows),
            Field::Word(self.cols),
            Field::Word(self.eps.bits),
            Field::Word(self.pad),
            Field::Address(self.in_ptr),
            Field::Address(self.out_ptr),
            Field::Address(self.weight_ptr),
            Field::Address(self.bias_ptr),
        ]
    }

    /// The fields in memory order: 48 bytes.
    pub fn fields(&self) -> (r: Vec<Field>)
        ensures
            r@ == self.layout(),
            layout_bytes(r@) == 48,
    {
        let fields: Vec<Field> = vec![
            Field::Word(self.rows),
            Field::Word(self.cols),
            Field::Word(self.eps.bits),
            Field::Word(self.pad),
            Field::Address(self.in_ptr),
            Field::Address(self.out_ptr),
            Field::Address(self.weight_ptr),
            Field::Address(self.bias_ptr),
        ];
        assert(fields@ =~= self.layout());
        proof {
            reveal_with_fuel(layout_bytes, 9);
        }
        fields
    }

    /// The block as the shader reads it, in the machine's byte order.
    pub fn bytes(&self) -> (r: Vec<u8>)
        ensures
            encodes(r@, self.layout()),
            r@.len() == 48,
    {
        encode(&self.fields())
    }
}

/// Rotary embedding.
#[derive(Copy, Clone, Debug)]
pub struct RopePc {
    pub tokens: u32,
    pub heads: u32,
    pub head_dim: u32,
    pub rot_dim: u32,
    pub pos_base: u32,
    pub pad: u32,
    pub in_ptr: u64,
    pub out_ptr: u64,
    pub table_ptr: u64,
    pub pos_ptr: u64,
}

impl RopePc {
    /// The fields in memory order.
    pub open spec fn layout(self) -> Seq<Field> {
        seq![
            Field::Word(self.tokens),
            Field::Word(self.heads),
            Field::Word(self.head_dim),
            Field::Word(self.rot_dim),
            Field::Word(self.pos_base),
            Field::Word(self.pad),
            Field::Address(self.in_ptr),
            Field::Address(self.out_ptr),
            Field::Address(self.table_ptr),
            Field::Address(self.pos_ptr),
        ]
    }

    /// The fields in memory order: 56 bytes.
    pub fn fields(&self) -> (r: Vec<Field>)
        ensures
            r@ == self.layout(),
            layout_bytes(r@) == 56,
    {
        let fields: Vec<Field> = vec![
            Field::Word(self.tokens),
            Field::Word(self.heads),
            Field::Word(self.head_dim),
            Field::Word(self.rot_dim),
            Field::Word(self.pos_base),
            Field::Word(self.pad),
            Field::Address(self.in_ptr),
            Field::Address(self.out_ptr),
            Field::Address(self.table_ptr),
            Field::Address(self.pos_ptr),
        ];
        assert(fields@ =~= self.layout());
        proof {
            reveal_with_fuel(layout_bytes, 11);
        }
        fields
    }

    /// The block as the shader reads it, in the machine's byte order.
    pub fn bytes(&self) -> (r: Vec<u8>)
        ensures
            encodes(r@, self.layout()),
            r@.len() == 56,
    {
        encode(&self.fields())
    }
}

/// Rotary embedding into a strided destination.
#[derive(Copy, Clone, Debug)]
pub struct RopeScatterPc {
    pub tokens: u32,
    pub heads: u32,
    pub head_dim: u32,
    pub rot_dim: u32,
    pub pos_base: u32,
    pub dst_offset: u32,
    pub dst_strides: [u32; 3],
    pub pos_scale: u32,
    pub in_ptr: u64,
    pub dst_ptr: u64,
    pub table_ptr: u64,
    pub pos_ptr: u64,
}

impl RopeScatterPc {
    /// The fields in memory order.
    pub open spec fn layout(self) -> Seq<Field> {
        seq![
            Field::Word(self.tokens),
            Field::Word(self.heads),
            Field::Word(self.head_dim),
            Field::Word(self.rot_dim),
            Field::Word(self.pos_base),
            Field::Word(self.dst_offset),
            Field::Word(self.dst_strides[0]),
            Field::Word(self.dst_strides[1]),
            Field::Word(self.dst_strides[2]),
            Field::Word(self.pos_scale),
            Field::Address(self.in_ptr),
            Field::Address(self.dst_ptr),
            Field::Address(self.table_ptr),
            Field::Address(self.pos_ptr),
        ]
    }

    /// The fields in memory order: 72 bytes.
    pub fn fields(&self) -> (r: Vec<Field>)
        ensures
            r@ == self.layout(),
            layout_bytes(r@) == 72,
    {
        let fields: Vec<Field> = vec![
            Field::Word(self.tokens),
            Field::Word(self.heads),
            Field::Word(self.head_dim),
            Field::Word(self.rot_dim),
            Field::Word(self.pos_base),
            Field::Word(self.dst_offset),
            Field::Word(self.dst_strides[0]),
            Field::Word(self.dst_strides[1]),
            Field::Word(self.dst_strides[2]),
            Field::Word(self.pos_scale),
            Field::Address(self.in_ptr),
            Field::Address(self.dst_ptr),
            Field::Address(self.table_ptr),
            Field::Address(self.pos_ptr),
        ];
        assert(fields@ =~= self.layout());
        proof {
            reveal_with_fuel(layout_bytes, 15);
        }
        fields
    }

    /// The block as the shader reads it, in the machine's byte order.
    pub fn bytes(&self) -> (r: Vec<u8>)
        ensures
            encodes(r@, self.layout()),
            r@.len() == 72,
    {
        encode(&self.fields())
    }
}

/// Strided copy.
#[derive(Copy, Clone, Debug)]
pub struct CopyPc {
    pub extent: [u32; 3],
    pub src_offset: u32,
    pub src_strides: [u32; 3],
    pub dst_offset: u32,
    pub dst_strides: [u32; 3],
    pub pos_scale: u32,
    pub src_ptr: u64,
    pub dst_ptr: u64,
    pub pos_ptr: u64,
}

impl CopyPc {
    /// The fields in memory order.
    pub open spec fn layout(self) -> Seq<Field> {
        seq![
            Field::Word(self.extent[0]),
            Field::Word(self.extent[1]),
            Field::Word(self.extent[2]),
            Field::Word(self.src_offset),
            Field::Word(self.src_strides[0]),
            Field::Word(self.src_strides[1]),
            Field::Word(self.src_strides[2]),
            Field::Word(self.dst_offset),
            Field::Word(self.dst_strides[0]),
            Field::Word(self.dst_strides[1]),
            Field::Word(self.dst_strides[2]),
            Field::Word(self.pos_scale),
            Field::Address(self.src_ptr),
            Field::Address(self.dst_ptr),
            Field::Address(self.pos_ptr),
        ]
    }

    /// The fields in memory order: 72 bytes.
    pub fn fields(&self) -> (r: Vec<Field>)
        ensures
            r@ == self.layout(),
            layout_bytes(r@) == 72,
    {
        let fields: Vec<Field> = vec![
            Field::Word(self.extent[0]),
            Field::Word(self.extent[1]),
            Field::Word(self.extent[2]),
            Field::Word(self.src_offset),
            Field::Word(self.src_strides[0]),
            Field::Word(self.src_strides[1]),
            Field::Word(self.src_strides[2]),
            Field::Word(self.dst_offset),
            Field::Word(self.dst_strides[0]),
            Field::Word(self.dst_strides[1]),
            Field::Word(self.dst_strides[2]),
            Field::Word(self.pos_scale),
            Field::Address(self.src_ptr),
            Field::Address(self.dst_ptr),
            Field::Address(self.pos_ptr),
        ];
        assert(fields@ =~= self.layout());
        proof {
            reveal_with_fuel(layout_bytes, 16);
        }
        fields
    }

    /// The block as the shader reads it, in the machine's byte order.
    pub fn bytes(&self) -> (r: Vec<u8>)
        ensures
            encodes(r@, self.layout()),
            r@.len() == 72,
    {
        encode(&self.fields())
    }
}

/// Binary combination.
#[derive(Copy, Clone, Debug)]
pub struct BinaryPc {
    pub n: u32,
    pub mode: u32,
    pub beta: Scalar,
    pub pad: u32,
    pub a_ptr: u64,
    pub b_ptr: u64,
    pub out_ptr: u64,
}

impl BinaryPc {
    /// The fields in memory order.
    pub open spec fn layout(self) -> Seq<Field> {
        seq![
            Field::Word(self.n),
            Field::Word(self.mode),
            Field::Word(self.beta.bits),
            Field::Word(self.pad),
            Field::Address(self.a_ptr),
            Field::Address(self.b_ptr),
            Field::Address(self.out_ptr),
        ]
    }

    /// The fields in memory order: 40 bytes.
    pub fn fields(&self) -> (r: Vec<Field>)
        ensures
            r@ == self.layout(),
            layout_bytes(r@) == 40,
    {
        let fields: Vec<Field> = vec![
            Field::Word(self.n),
            Field::Word(self.mode),
            Field::Word(self.beta.bits),
            Field::Word(self.pad),
            Field::Address(self.a_ptr),
            Field::Address(self.b_ptr),
            Field::Address(self.out_ptr),
        ];
        assert(fields@ =~= self.layout());
        proof {
            reveal_with_fuel(layout_bytes, 8);
        }
        fields
    }

    /// The block as the shader reads it, in the machine's byte order.
    pub fn bytes(&self) -> (r: Vec<u8>)
        ensures
            encodes(r@, self.layout()),
            r@.len() == 40,
    {
        encode(&self.fields())
    }
}

/// Flash attention.
#[derive(Copy, Clone, Debug)]
pub struct FlashPc {
    pub t_q: u32,
    pub t_max: u32,
    pub kv_len: u32,
    pub pos_base: u32,
    pub group_size: u32,
    pub scale: Scalar,
    pub q_head_stride: u32,
    pub q_row_stride: u32,
    pub o_head_stride: u32,
    pub o_row_stride: u32,
    pub q_ptr: u64,
    pub kt_ptr: u64,
    pub v_ptr: u64,
    pub out_ptr: u64,
}

impl FlashPc {
    /// The fields in memory order.
    pub open spec fn layout(self) -> Seq<Field> {
        seq![
            Field::Word(self.t_q),
            Field::Word(self.t_max),
            Field::Word(self.kv_len),
            Field::Word(self.pos_base),
            Field::Word(self.group_size),
            Field::Word(self.scale.bits),
            Field::Word(self.q_head_stride),
            Field::Word(self.q_row_stride),
            Field::Word(self.o_head_stride),
            Field::Word(self.o_row_stride),
            Field::Address(self.q_ptr),
            Field::Address(self.kt_ptr),
            Field::Address(self.v_ptr),
            Field::Address(self.out_ptr),
        ]
    }

    /// The fields in memory order: 72 bytes.
    pub fn fields(&self) -> (r: Vec<Field>)
        ensures
            r@ == self.layout(),
            layout_bytes(r@) == 72,
    {
        let fields: Vec<Field> = vec![
            Field::Word(self.t_q),
            Field::Word(self.t_max),
            Field::Word(self.kv_len),
            Field::Word(self.pos_base),
            Field::Word(self.group_size),
            Field::Word(self.scale.bits),
            Field::Word(self.q_head_stride),
            Field::Word(self.q_row_stride),
            Field::Word(self.o_head_stride),
            Field::Word(self.o_row_stride),
            Field::Address(self.q_ptr),
            Field::Address(self.kt_ptr),
            Field::Address(self.v_ptr),
            Field::Address(self.out_ptr),
        ];
        assert(fields@ =~= self.layout());
        proof {
            reveal_with_fuel(layout_bytes, 15);
        }
        fields
    }

    /// The block as the shader reads it, in the machine's byte order.
    pub fn bytes(&self) -> (r: Vec<u8>)
        ensures
            encodes(r@, self.layout()),
            r@.len() == 72,
    {
        encode(&self.fields())
    }
}

/// Prefill QKV pack.
#[derive(Copy, Clone, Debug)]
pub struct PrefillQkvPackPc {
    pub tokens: u32,
    pub heads: u32,
    pub kv_heads: u32,
    pub head_dim: u32,
    pub rot_dim: u32,
    pub pos_base: u32,
    pub qkv_stride: u32,
    pub t_max: u32,
    pub k_offset: u32,
    pub v_offset: u32,
    pub qkv_ptr: u64,
    pub q_ptr: u64,
    pub kt_ptr: u64,
    pub v_ptr: u64,
    pub table_ptr: u64,
}

impl PrefillQkvPackPc {
    /// The fields in memory order.
    pub open spec fn layout(self) -> Seq<Field> {
        seq![
            Field::Word(self.tokens),
            Field::Word(self.heads),
            Field::Word(self.kv_heads),
            Field::Word(self.head_dim),
            Field::Word(self.rot_dim),
            Field::Word(self.pos_base),
            Field::Word(self.qkv_stride),
            Field::Word(self.t_max),
            Field::Word(self.k_offset),
            Field::Word(self.v_offset),
            Field::Address(self.qkv_ptr),
            Field::Address(self.q_ptr),
            Field::Address(self.kt_ptr),
            Field::Address(self.v_ptr),
            Field::Address(self.table_ptr),
        ]
    }

    /// The fields in memory order: 80 bytes.
    pub fn fields(&self) -> (r: Vec<Field>)
        ensures
            r@ == self.layout(),
            layout_bytes(r@) == 80,
    {
        let fields: Vec<Field> = vec![
            Field::Word(self.tokens),
            Field::Word(self.heads),
            Field::Word(self.kv_heads),
            Field::Word(self.head_dim),
            Field::Word(self.rot_dim),
            Field::Word(self.pos_base),
            Field::Word(self.qkv_stride),
            Field::Word(self.t_max),
            Field::Word(self.k_offset),
            Field::Word(self.v_offset),
            Field::Address(self.qkv_ptr),
            Field::Address(self.q_ptr),
            Field::Address(self.kt_ptr),
            Field::Address(self.v_ptr),
            Field::Address(self.table_ptr),
        ];
        assert(fields@ =~= self.layout());
        proof {
            reveal_with_fuel(layout_bytes, 16);
        }
        fields
    }

    /// The block as the shader reads it, in the machine's byte order.
    pub fn bytes(&self) -> (r: Vec<u8>)
        ensures
            encodes(r@, self.layout()),
            r@.len() == 80,
    {
        encode(&self.fields())
    }
}

/// Decode attention, first stage.
#[derive(Copy, Clone, Debug)]
pub struct AttnDecodePc {
    pub kv_len: u32,
    pub num_chunks: u32,
    pub group: u32,
    pub t_max: u32,
    pub scale: Scalar,
    pub pad: u32,
    pub q_ptr: u64,
    pub kt_ptr: u64,
    pub v_ptr: u64,
    pub scratch_ptr: u64,
    pub pos_ptr: u64,
}

impl AttnDecodePc {
    /// The fields in memory order.
    pub open spec fn layout(self) -> Seq<Field> {
        seq![
            Field::Word(self.kv_len),
            Field::Word(self.num_chunks),
            Field::Word(self.group),
            Field::Word(self.t_max),
            Field::Word(self.scale.bits),
            Field::Word(self.pad),
            Field::Address(self.q_ptr),
            Field::Address(self.kt_ptr),
            Field::Address(self.v_ptr),
            Field::Address(self.scratch_ptr),
            Field::Address(self.pos_ptr),
        ]
    }

    /// The fields in memory order: 64 bytes.
    pub fn fields(&self) -> (r: Vec<Field>)
        ensures
            r@ == self.layout(),
            layout_bytes(r@) == 64,
    {
        let fields: Vec<Field> = vec![
            Field::Word(self.kv_len),
            Field::Word(self.num_chunks),
            Field::Word(self.group),
            Field::Word(self.t_max),
            Field::Word(self.scale.bits),
            Field::Word(self.pad),
            Field::Address(self.q_ptr),
            Field::Address(self.kt_ptr),
            Field::Address(self.v_ptr),
            Field::Address(self.scratch_ptr),
            Field::Address(self.pos_ptr),
        ];
        assert(fields@ =~= self.layout());
        proof {
            reveal_with_fuel(layout_bytes, 12);
        }
        fields
    }

    /// The block as the shader reads it, in the machine's byte order.
    pub fn bytes(&self) -> (r: Vec<u8>)
        ensures
            encodes(r@, self.layout()),
            r@.len() == 64,
    {
        encode(&self.fields())
    }
}

/// Decode attention, second stage.
#[derive(Copy, Clone, Debug)]
pub struct AttnCombinePc {
    pub num_chunks: u32,
    pub group: u32,
    pub dh: u32,
    pub pad: u32,
    pub scratch_ptr: u64,
    pub out_ptr: u64,
}

impl AttnCombinePc {
    /// The fields in memory order.
    pub open spec fn layout(self) -> Seq<Field> {
        seq![
            Field::Word(self.num_chunks),
            Field::Word(self.group),
            Field::Word(self.dh),
            Field::Word(self.pad),
            Field::Address(self.scratch_ptr),
            Field::Address(self.out_ptr),
        ]
    }

    /// The fields in memory order: 32 bytes.
    pub fn fields(&self) -> (r: Vec<Field>)
        ensures
            r@ == self.layout(),
            layout_bytes(r@) == 32,
    {
        let fields: Vec<Field> = vec![
            Field::Word(self.num_chunks),
            Field::Word(self.group),
            Field::Word(self.dh),
            Field::Word(self.pad),
            Field::Address(self.scratch_ptr),
            Field::Address(self.out_ptr),
        ];
        assert(fields@ =~= self.layout());
        proof {
            reveal_with_fuel(layout_bytes, 7);
        }
        fields
    }

    /// The block as the shader reads it, in the machine's byte order.
    pub fn bytes(&self) -> (r: Vec<u8>)
        ensures
            encodes(r@, self.layout()),
            r@.len() == 32,
    {
        encode(&self.fields())
    }
}

/// Greedy argmax.
#[derive(Copy, Clone, Debug)]
pub struct ArgmaxPc {
    pub n: u32,
    pub pad: u32,
    pub in_ptr: u64,
    pub result_ptr: u64,
}

impl ArgmaxPc {
    /// The fields in memory order.
    pub open spec fn layout(self) -> Seq<Field> {
        seq![
            Field::Word(self.n),
            Field::Word(self.pad),
            Field::Address(self.in_ptr),
            Field::Address(self.result_ptr),
        ]
    }

    /// The fields in memory order: 24 bytes.
    pub fn fields(&self) -> (r: Vec<Field>)
        ensures
            r@ == self.layout(),
            layout_bytes(r@) == 24,
    {
        let fields: Vec<Field> = vec![
            Field::Word(self.n),
            Field::Word(self.pad),
            Field::Address(self.in_ptr),
            Field::Address(self.result_ptr),
        ];
        assert(fields@ =~= self.layout());
        proof {
            reveal_with_fuel(layout_bytes, 5);
        }
        fields
    }

    /// The block as the shader reads it, in the machine's byte order.
    pub fn bytes(&self) -> (r: Vec<u8>)
        ensures
            encodes(r@, self.layout()),
            r@.len() == 24,
    {
        encode(&self.fields())
    }
}

/// Embedding gather.
#[derive(Copy, Clone, Debug)]
pub struct EmbedGatherPc {
    pub embd: u32,
    pub vocab: u32,
    pub table_f16: u32,
    pub n_tokens: u32,
    pub out_f16: u32,
    pub pad: u32,
    pub token_ptr: u64,
    pub table_ptr: u64,
    pub out_ptr: u64,
}

impl EmbedGatherPc {
    /// The fields in memory order.
    pub open spec fn layout(self) -> Seq<Field> {
        seq![
            Field::Word(self.embd),
            Field::Word(self.vocab),
            Field::Word(self.table_f16),
            Field::Word(self.n_tokens),
            Field::Word(self.out_f16),
            Field::Word(self.pad),
            Field::Address(self.token_ptr),
            Field::Address(self.table_ptr),
            Field::Address(self.out_ptr),
        ]
    }

    /// The fields in memory order: 48 bytes.
    pub fn fields(&self) -> (r: Vec<Field>)
        ensures
            r@ == self.layout(),
            layout_bytes(r@) == 48,
    {
        let fields: Vec<Field> = vec![
            Field::Word(self.embd),
            Field::Word(self.vocab),
            Field::Word(self.table_f16),
            Field::Word(self.n_tokens),
            Field::Word(self.out_f16),
            Field::Word(self.pad),
            Field::Address(self.token_ptr),
            Field::Address(self.table_ptr),
            Field::Address(self.out_ptr),
        ];
        assert(fields@ =~= self.layout());
        proof {
            reveal_with_fuel(layout_bytes, 10);
        }
        fields
    }

    /// The block as the shader reads it, in the machine's byte order.
    pub fn bytes(&self) -> (r: Vec<u8>)
        ensures
            encodes(r@, self.layout()),
            r@.len() == 48,
    {
        encode(&self.fields())
    }
}

/// Persistent GEMV chain.
#[derive(Copy, Clone, Debug)]
pub struct GemvChainPc {
    pub jobs_ptr: u64,
    pub sync_ptr: u64,
    pub n_jobs: u32,
    pub n_wg: u32,
}

impl GemvChainPc {
    /// The fields in memory order.
    pub open spec fn layout(self) -> Seq<Field> {
        seq![
            Field::Address(self.jobs_ptr),
            Field::Address(self.sync_ptr),
            Field::Word(self.n_jobs),
            Field::Word(self.n_wg),
        ]
    }

    /// The fields in memory order: 24 bytes.
    pub fn fields(&self) -> (r: Vec<Field>)
        ensures
            r@ == self.layout(),
            layout_bytes(r@) == 24,
    {
        let fields: Vec<Field> = vec![
            Field::Address(self.jobs_ptr),
            Field::Address(self.sync_ptr),
            Field::Word(self.n_jobs),
            Field::Word(self.n_wg),
        ];
        assert(fields@ =~= self.layout());
        proof {
            reveal_with_fuel(layout_bytes, 5);
        }
        fields
    }

    /// The block as the shader reads it, in the machine's byte order.
    pub fn bytes(&self) -> (r: Vec<u8>)
        ensures
            encodes(r@, self.layout()),
            r@.len() == 24,
    {
        encode(&self.fields())
    }
}

/// One GEMV of a chain: eighty bytes, as the shader declares it.
#[derive(Copy, Clone, Debug, PartialEq, Eq, Structural)]
pub struct GemvJob {
    pub n: u32,
    pub k: u32,
    pub flags: u32,
    pub vcols: u32,
    pub alpha: Scalar,
    pub beta: Scalar,
    pub pad0: u32,
    pub pad1: u32,
    pub a_ptr: u64,
    pub b_ptr: u64,
    pub c_ptr: u64,
    pub d_ptr: u64,
    pub bias_ptr: u64,
    pub pad2: u64,
}

impl GemvJob {
    /// The fields in memory order.
    pub open spec fn layout(self) -> Seq<Field> {
        seq![
            Field::Word(self.n),
            Field::Word(self.k),
            Field::Word(self.flags),
            Field::Word(self.vcols),
            Field::Word(self.alpha.bits),
            Field::Word(self.beta.bits),
            Field::Word(self.pad0),
            Field::Word(self.pad1),
            Field::Address(self.a_ptr),
            Field::Address(self.b_ptr),
            Field::Address(self.c_ptr),
            Field::Address(self.d_ptr),
            Field::Address(self.bias_ptr),
            Field::Address(self.pad2),
        ]
    }

    /// The fields in memory order: 80 bytes.
    pub fn fields(&self) -> (r: Vec<Field>)
        ensures
            r@ == self.layout(),
            layout_bytes(r@) == 80,
    {
        let fields: Vec<Field> = vec![
            Field::Word(self.n),
            Field::Word(self.k),
            Field::Word(self.flags),
            Field::Word(self.vcols),
            Field::Word(self.alpha.bits),
            Field::Word(self.beta.bits),
            Field::Word(self.pad0),
            Field::Word(self.pad1),
            Field::Address(self.a_ptr),
            Field::Address(self.b_ptr),
            Field::Address(self.c_ptr),
            Field::Address(self.d_ptr),
            Field::Address(self.bias_ptr),
            Field::Address(self.pad2),
        ];
        assert(fields@ =~= self.layout());
        proof {
            reveal_with_fuel(layout_bytes, 15);
        }
        fields
    }
}

/// The push constants of an elementwise dispatch.
#[derive(Copy, Clone, Debug)]
pub enum PushBlock {
    Softmax(SoftmaxPc),
    Norm(NormPc),
    Rope(RopePc),
    RopeScatter(RopeScatterPc),
    Copy(CopyPc),
    Binary(BinaryPc),
    Flash(FlashPc),
    PrefillQkvPack(PrefillQkvPackPc),
    AttnDecode(AttnDecodePc),
    AttnCombine(AttnCombinePc),
    Argmax(ArgmaxPc),
    EmbedGather(EmbedGatherPc),
    GemvChain(GemvChainPc),
}

impl PushBlock {
    /// The fields in memory order.
    pub open spec fn layout(self) -> Seq<Field> {
        match self {
            PushBlock::Softmax(pc) => pc.layout(),
            PushBlock::Norm(pc) => pc.layout(),
            PushBlock::Rope(pc) => pc.layout(),
            PushBlock::RopeScatter(pc) => pc.layout(),
            PushBlock::Copy(pc) => pc.layout(),
            PushBlock::Binary(pc) => pc.layout(),
            PushBlock::Flash(pc) => pc.layout(),
            PushBlock::PrefillQkvPack(pc) => pc.layout(),
            PushBlock::AttnDecode(pc) => pc.layout(),
            PushBlock::AttnCombine(pc) => pc.layout(),
            PushBlock::Argmax(pc) => pc.layout(),
            PushBlock::EmbedGather(pc) => pc.layout(),
            PushBlock::GemvChain(pc) => pc.layout(),
        }
    }

    /// The fields as the shader reads them. They fit the shared layout.
    pub fn bytes(&self) -> (r: Vec<u8>)
        ensures
            encodes(r@, self.layout()),
            0 < r@.len() <= ELEMENTWISE_PC_BYTES,
    {
        match self {
            PushBlock::Softmax(pc) => pc.bytes(),
            PushBlock::Norm(pc) => pc.bytes(),
            PushBlock::Rope(pc) => pc.bytes(),
            PushBlock::RopeScatter(pc) => pc.bytes(),
            PushBlock::Copy(pc) => pc.bytes(),
            PushBlock::Binary(pc) => pc.bytes(),
            PushBlock::Flash(pc) => pc.bytes(),
            PushBlock::PrefillQkvPack(pc) => pc.bytes(),
            PushBlock::AttnDecode(pc) => pc.bytes(),
            PushBlock::AttnCombine(pc) => pc.bytes(),
            PushBlock::Argmax(pc) => pc.bytes(),
            PushBlock::EmbedGather(pc) => pc.bytes(),
            PushBlock::GemvChain(pc) => pc.bytes(),
        }
    }
}

} // verus!
