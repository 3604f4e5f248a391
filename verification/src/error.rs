//! Why a request is refused.
//!
//! A [`Refusal`] tells a failed check apart from every other one and holds
//! the numbers that its message quotes. An [`Error`] adds the shapes and the
//! name that the message quotes, and renders it.

use crate::dtype::DType;
use crate::text::{
    decimal, hexadecimal, list_text, push_decimal, push_hexadecimal, push_list, push_text, to_chars,
};
use vstd::prelude::*;

verus! {

/// An entry point, as error messages name it.
#[derive(Copy, Clone, Debug, PartialEq, Eq, Structural)]
pub enum OpName {
    SoftmaxRows,
    RmsNorm,
    LayerNorm,
    Rope,
    RopeScatter,
    Binary,
    CopyStrided,
    Argmax,
    EmbedGather,
    AttnDecode,
    FlashAttention,
    PrefillQkvPack,
    RunExecOps,
    PrepareExecOps,
    ExecOpsBarrierCount,
    CreatePosBuffer,
    CreateHostU32Buffer,
    CreateTokenIdBuffer,
    RunMatmulsStreamK,
    RunMatmulsStreamKDpOnly,
    Upload,
    Download,
}

impl OpName {
    /// The name that messages use.
    pub open spec fn label_of(self) -> &'static str {
        match self {
            OpName::SoftmaxRows => "run_softmax_rows",
            OpName::RmsNorm => "run_rms_norm",
            OpName::LayerNorm => "run_layer_norm",
            OpName::Rope => "run_rope",
            OpName::RopeScatter => "run_rope_scatter",
            OpName::Binary => "run_binary",
            OpName::CopyStrided => "run_copy_strided",
            OpName::Argmax => "run_argmax",
            OpName::EmbedGather => "run_embed_gather",
            OpName::AttnDecode => "run_attn_decode",
            OpName::FlashAttention => "run_flash_attention",
            OpName::PrefillQkvPack => "run_prefill_qkv_pack",
            OpName::RunExecOps => "run_exec_ops",
            OpName::PrepareExecOps => "prepare_exec_ops",
            OpName::ExecOpsBarrierCount => "exec_ops_barrier_count",
            OpName::CreatePosBuffer => "create_pos_buffer",
            OpName::CreateHostU32Buffer => "create_host_u32_buffer",
            OpName::CreateTokenIdBuffer => "create_token_id_buffer",
            OpName::RunMatmulsStreamK => "run_matmuls_stream_k",
            OpName::RunMatmulsStreamKDpOnly => "run_matmuls_stream_k_dp_only",
            OpName::Upload => "upload",
            OpName::Download => "download",
        }
    }

    /// The name that messages use.
    #[verifier::when_used_as_spec(label_of)]
    pub fn label(self) -> (r: &'static str)
        ensures
            r == self.label_of(),
    {
        match self {
            OpName::SoftmaxRows => "run_softmax_rows",
            OpName::RmsNorm => "run_rms_norm",
            OpName::LayerNorm => "run_layer_norm",
            OpName::Rope => "run_rope",
            OpName::RopeScatter => "run_rope_scatter",
            OpName::Binary => "run_binary",
            OpName::CopyStrided => "run_copy_strided",
            OpName::Argmax => "run_argmax",
            OpName::EmbedGather => "run_embed_gather",
            OpName::AttnDecode => "run_attn_decode",
            OpName::FlashAttention => "run_flash_attention",
            OpName::PrefillQkvPack => "run_prefill_qkv_pack",
            OpName::RunExecOps => "run_exec_ops",
            OpName::PrepareExecOps => "prepare_exec_ops",
            OpName::ExecOpsBarrierCount => "exec_ops_barrier_count",
            OpName::CreatePosBuffer => "create_pos_buffer",
            OpName::CreateHostU32Buffer => "create_host_u32_buffer",
            OpName::CreateTokenIdBuffer => "create_token_id_buffer",
            OpName::RunMatmulsStreamK => "run_matmuls_stream_k",
            OpName::RunMatmulsStreamKDpOnly => "run_matmuls_stream_k_dp_only",
            OpName::Upload => "upload",
            OpName::Download => "download",
        }
    }
}

/// What a tensor is to the request it came with.
#[derive(Copy, Clone, Debug, PartialEq, Eq, Structural)]
pub enum Role {
    A,
    B,
    C,
    Bias,
    D,
    Input,
    Output,
    Weight,
    Table,
    Dst,
    Src,
    SecondOperand,
    Q,
    Kt,
    V,
    Scratch,
    Out,
    Qkv,
    UploadDestination,
    DownloadSource,
}

impl Role {
    /// The name that messages use.
    pub open spec fn label_of(self) -> &'static str {
        match self {
            Role::A => "A",
            Role::B => "B",
            Role::C => "C",
            Role::Bias => "bias",
            Role::D => "D",
            Role::Input => "input",
            Role::Output => "output",
            Role::Weight => "weight",
            Role::Table => "table",
            Role::Dst => "dst",
            Role::Src => "src",
            Role::SecondOperand => "b",
            Role::Q => "q",
            Role::Kt => "kt",
            Role::V => "v",
            Role::Scratch => "scratch",
            Role::Out => "out",
            Role::Qkv => "qkv",
            Role::UploadDestination => "upload destination",
            Role::DownloadSource => "download source",
        }
    }

    /// The name that messages use.
    #[verifier::when_used_as_spec(label_of)]
    pub fn label(self) -> (r: &'static str)
        ensures
            r == self.label_of(),
    {
        match self {
            Role::A => "A",
            Role::B => "B",
            Role::C => "C",
            Role::Bias => "bias",
            Role::D => "D",
            Role::Input => "input",
            Role::Output => "output",
            Role::Weight => "weight",
            Role::Table => "table",
            Role::Dst => "dst",
            Role::Src => "src",
            Role::SecondOperand => "b",
            Role::Q => "q",
            Role::Kt => "kt",
            Role::V => "v",
            Role::Scratch => "scratch",
            Role::Out => "out",
            Role::Qkv => "qkv",
            Role::UploadDestination => "upload destination",
            Role::DownloadSource => "download source",
        }
    }
}

/// A dimension of a matmul operand, as error messages name it.
#[derive(Copy, Clone, Debug, PartialEq, Eq, Structural)]
pub enum DimName {
    AK,
    BK,
    AM,
    CM,
    BN,
    CN,
}

impl DimName {
    /// The name that messages use.
    pub open spec fn label_of(self) -> &'static str {
        match self {
            DimName::AK => "A.K",
            DimName::BK => "B.K",
            DimName::AM => "A.M",
            DimName::CM => "C.M",
            DimName::BN => "B.N",
            DimName::CN => "C.N",
        }
    }

    /// The name that messages use.
    #[verifier::when_used_as_spec(label_of)]
    pub fn label(self) -> (r: &'static str)
        ensures
            r == self.label_of(),
    {
        match self {
            DimName::AK => "A.K",
            DimName::BK => "B.K",
            DimName::AM => "A.M",
            DimName::CM => "C.M",
            DimName::BN => "B.N",
            DimName::CN => "C.N",
        }
    }
}

/// What fills one place of a message template.
#[derive(Copy, Clone)]
pub enum Arg {
    /// A number, in decimal.
    Number(u64),
    /// A number, in hexadecimal with its prefix.
    Hex(u64),
    /// A fixed piece of text.
    Text(&'static str),
    /// The error's first shape.
    First,
    /// The error's second shape.
    Second,
    /// The error's name.
    Name,
}

/// A failed check, with the numbers that its message quotes.
#[derive(Copy, Clone, Debug, PartialEq, Eq, Structural)]
pub enum Refusal {
    EmptyShape,
    ZeroDimension { index: usize },
    ElementCountOverflow,
    ByteSizeOverflow,
    NoF16Storage,
    MatmulRank { rank: usize },
    MatmulZeroDimension { batch: u32, rows: u32, cols: u32 },
    BatchStrideOverflow { operand: Role },
    LayoutTooLarge { operand: Role, batch: u32, rows: u32, cols: u32 },
    DimMismatch { left_label: DimName, left: u32, right_label: DimName, right: u32 },
    BatchMismatch { operand: Role, input_batch: u32, output_batch: u32 },
    FlopOverflow,
    BiasShape { batch: u32, n: u32 },
    DShape,
    NormedAWithBias,
    StoreWithAccumulate,
    StoreWithEpilogue,
    StoreHeadDim { head_dim: u32, n: u32 },
    StoreTable { len: u64, needed: u64 },
    StoreBounds { len: u64 },
    UnknownKernel,
    DeviceIndex,
    UnknownTile,
    SelectedNeedsCoopmat2,
    SelectedNeedsCoopmat,
    SelectedNeedsF16,
    SelectedOverBudget { shared_bytes: u32, budget: u32 },
    ForeignTensor { role: Role },
    AliasedOutput,
    ForeignPipeline,
    NoF16ActivationSupport,
    StreamKZero,
    StreamKUnaligned,
    StreamKTileOverflow,
    StreamKIterOverflow,
    StreamKGridOverflow,
    StreamKAccumulate { op: OpName },
    StreamKBatch { op: OpName, batch: u32 },
    StreamKShape { op: OpName, m: u32, n: u32, k: u32 },
    StreamKNoAddresses { op: OpName },
    StreamKNoAtomics { op: OpName },
    StreamKGrid { n_tiles: u32, dp_rows: u32, g_sk: u32, max_x: u32, max_y: u32, max_z: u32 },
    StreamKEmpty { m: u32, n: u32, k: u32 },
    SplitRange { splits: u32 },
    SplitOverK { splits: u32, k: u32 },
    SplitScratchOverflow,
    SplitScratchAddressing { elements: u64 },
    SplitGridOverflow,
    SplitGrid { gx: u32, gy: u32, gz: u32, max_x: u32, max_y: u32, max_z: u32 },
    SplitOutputAddressing { total: u64 },
    SplitReduceGrid { groups: u32 },
    SplitAccumulate,
    SplitCountRange { splits: u32 },
    SplitCountOverK { splits: u32, k: u32 },
    SplitNoAddresses,
    Misaligned { tile_m: u32, tile_n: u32, tile_k: u32, m: u32, n: u32, k: u32 },
    WeightStorage { kernel: DType, b: DType },
    ActivationStorage { kernel: DType, a: DType },
    PackedMismatch,
    F16NeedsAddresses,
    EpilogueNeedsAddresses,
    EpilogueUnsupported,
    NormedAUnsupported { m: u32 },
    StoreUnsupported { m: u32 },
    MatmulGrid { gx: u32, gy: u32, gz: u32, m: u32, n: u32, k: u32, batch: u32, max_x: u32, max_y: u32, max_z: u32 },
    TooManyOps { ops: usize, max: u32 },
    PrepareEmpty,
    PrepareNeedsAddresses,
    PrepareDescriptors,
    AlreadyInFlight,
    NothingSubmitted,
    NoTunableKernel,
    NoMeasurement,
    TuneNoTimestamps,
    ForcedDescriptors,
    TransferTooLarge { op: OpName, size: u64, capacity: u64 },
    SliceTooLarge,
    CellNeedsAddresses { op: OpName },
    TokenCapZero,
    TokenIdsOverCap { ids: usize, cap: u32 },
    PersistentNeedsAddresses,
    PersistentPushSize { needed_bytes: u32, limit_bytes: u32 },
    PersistentForeign { role: Role },
    PersistentAlias,
    PersistentTiles,
    PersistentNoGrid,
    HostLength,
    DescriptorOverflow,
    ElementwiseNeedsAddresses,
    ElementwiseGrid { gx: u32, gy: u32, max_x: u32, max_y: u32 },
    NotF32 { op: OpName, role: Role },
    StorageMismatch { op: OpName, input: DType, output: DType },
    OutputShape { op: OpName },
    RowCount { op: OpName, row_count: u64 },
    RowsPerGroup { rows_per_group: u32, rows: u32 },
    F16LayerNorm { op: OpName },
    NormLength { op: OpName, role: Role, len: u64, cols: u32 },
    RotDim { op: OpName, rot_dim: u32, head_dim: u32 },
    RopeInput { op: OpName, len: u64, vec_elems: u64 },
    RopeTokens { op: OpName },
    RopeTable { op: OpName, len: u64, needed: u64, pos_base: u32, tokens: u32, rot_dim: u32 },
    SameTensor { op: OpName, one: Role, other: Role },
    DestinationReach { op: OpName, reach: u64, len: u64 },
    SourceReach { reach: u64, len: u64 },
    BinaryStorage { b_type: DType, a_type: DType },
    BinaryCounts { a_len: u64, b_len: u64, out_len: u64 },
    BinaryTooLarge,
    ZeroExtent { x: u32, y: u32, z: u32 },
    ExtentProduct,
    ForeignResult,
    ArgmaxTooLong,
    ForeignTokens,
    GatherTable,
    GatherOut { embd: u32 },
    GatherTokens { bytes: u64, needed: u64, n_tokens: u32 },
    CacheStorage { op: OpName, kt: DType, v: DType },
    KtShape { op: OpName },
    VShape { op: OpName },
    AttnCaches,
    AttnHeadDim { dh: u32 },
    AttnQ { len: u64, kv_heads: u32, dh: u32 },
    AttnGroupOverflow,
    AttnGroup { group: u32 },
    AttnOut { out_len: u64, q_len: u64 },
    AttnKvLen { kv_len: u32, t_max: u32 },
    AttnScratch { len: u64, needed: u64, kv_heads: u32, chunks: u32, group: u32 },
    FlashCaches,
    FlashHeadsZero,
    FlashTokenMajorQ { t_q: u32, heads: u32, dh: u32 },
    FlashQShape,
    FlashQDim { q_dh: u32, dh: u32 },
    FlashOutHeadsZero,
    FlashOutHeads { out_heads: u32, heads: u32 },
    FlashTokenMajorOut { t_q: u32, heads: u32, dh: u32 },
    FlashOutMatch,
    FlashOutShape,
    FlashGroups { heads: u32, kv_heads: u32 },
    FlashKvLen { kv_len: u32, t_max: u32 },
    FlashF16NeedsCm2,
    FlashF16Variant { kv: DType, dh: u32 },
    FlashHeadDim { dh: u32 },
    PackStorage { role: Role, got: DType },
    PackGeometry { heads: u32, kv_heads: u32, head_dim: u32, rot_dim: u32 },
    PackQkvShape,
    PackQkvWidth { width: u32, want: u32 },
    PackQShape { heads: u32, tokens: u32, head_dim: u32 },
    PackCaches { kv_heads: u32, head_dim: u32 },
    PackPosition { pos_base: u32, tokens: u32, t_max: u32 },
    PackHeadDim { head_dim: u32 },
    ChainNoScope,
    ChainEmpty,
    ChainTooLong { jobs: usize },
    ChainStore { index: usize },
    ChainAccumulate { index: usize },
    ChainActivations { index: usize },
    ChainWeights { index: usize },
    ChainPacked { index: usize },
    ChainBias { index: usize },
    ChainRow { index: usize, batch: u32, m: u32 },
    ChainRelu { index: usize },
    ChainGelu { index: usize },
    ChainNormedAddScaled { index: usize },
    EmptyOpList { op: OpName },
    GraphDescriptors,
    ChainCount { jobs: usize },
    PosMismatch { used: u64, prepared: u64 },
    TotalFlopOverflow,
}

impl Refusal {
    /// The message as a template, and what fills its places in order.
    pub open spec fn message_parts(self) -> (&'static str, Seq<Arg>) {
        match self {
            Refusal::EmptyShape => (
                "tensor shape must have at least one dimension",
                Seq::empty(),
            ),
            Refusal::ZeroDimension { index } => (
                "tensor dimension {} must be non-zero",
                seq![Arg::Number(index as u64)],
            ),
            Refusal::ElementCountOverflow => (
                "tensor element count overflows u64",
                Seq::empty(),
            ),
            Refusal::ByteSizeOverflow => (
                "tensor byte size overflows u64",
                Seq::empty(),
            ),
            Refusal::NoF16Storage => (
                "device does not support f16 storage (shaderFloat16 + storageBuffer16BitAccess)",
                Seq::empty(),
            ),
            Refusal::MatmulRank { rank } => (
                "tensor rank {} not supported by matmul (must be 2 or 3)",
                seq![Arg::Number(rank as u64)],
            ),
            Refusal::MatmulZeroDimension { batch, rows, cols } => (
                "matmul dimensions must be non-zero, got B={} rows={} cols={}",
                seq![Arg::Number(batch as u64), Arg::Number(rows as u64), Arg::Number(cols as u64)],
            ),
            Refusal::BatchStrideOverflow { operand } => (
                "{} batch stride overflows u32",
                seq![Arg::Text(operand.label())],
            ),
            Refusal::LayoutTooLarge { operand, batch, rows, cols } => (
                "{} layout exceeds shader u32 indexing: B={} rows={} cols={}",
                seq![Arg::Text(operand.label()), Arg::Number(batch as u64), Arg::Number(rows as u64), Arg::Number(cols as u64)],
            ),
            Refusal::DimMismatch { left_label, left, right_label, right } => (
                "matmul shape mismatch: {}={} vs {}={}",
                seq![Arg::Text(left_label.label()), Arg::Number(left as u64), Arg::Text(right_label.label()), Arg::Number(right as u64)],
            ),
            Refusal::BatchMismatch { operand, input_batch, output_batch } => (
                "matmul incompatible batch dims: {}.B={} cannot broadcast to C.B={}",
                seq![Arg::Text(operand.label()), Arg::Number(input_batch as u64), Arg::Number(output_batch as u64)],
            ),
            Refusal::FlopOverflow => (
                "matmul FLOP count overflows u64",
                Seq::empty(),
            ),
            Refusal::BiasShape { batch, n } => (
                "epilogue bias shape {}, expected [{}] or [{}, {}]",
                seq![Arg::First, Arg::Number(n as u64), Arg::Number(batch as u64), Arg::Number(n as u64)],
            ),
            Refusal::DShape => (
                "epilogue D shape {} must equal C shape {}",
                seq![Arg::First, Arg::Second],
            ),
            Refusal::NormedAWithBias => (
                "normed-A cannot combine with an epilogue bias or the AddScaled binary",
                Seq::empty(),
            ),
            Refusal::StoreWithAccumulate => (
                "a fused store cannot combine with accumulate",
                Seq::empty(),
            ),
            Refusal::StoreWithEpilogue => (
                "a fused store cannot combine with an epilogue",
                Seq::empty(),
            ),
            Refusal::StoreHeadDim { head_dim, n } => (
                "fused store head_dim {} must be even and divide N={}",
                seq![Arg::Number(head_dim as u64), Arg::Number(n as u64)],
            ),
            Refusal::StoreTable { len, needed } => (
                "fused store table length {} < required {}",
                seq![Arg::Number(len as u64), Arg::Number(needed as u64)],
            ),
            Refusal::StoreBounds { len } => (
                "fused store reaches element past dst length {}",
                seq![Arg::Number(len as u64)],
            ),
            Refusal::UnknownKernel => (
                "invalid ML_KERNEL '{}', expected one of auto, large, small, m64n128, m128n64, m128n64k64, m64n32, k64, row_bda, col_bda, outer_bda, bk16, v2, m64n128k64, m128n128_t4, m256n64, v3, any *_bda / *_bda_v4 variant, or an f16w_* kernel (f16 weights)",
                seq![Arg::Name],
            ),
            Refusal::DeviceIndex => (
                "invalid ML_DEVICE '{}', expected a number behind index:",
                seq![Arg::Name],
            ),
            Refusal::UnknownTile => (
                "invalid ML_KERNEL '{}', expected auto, large, or small",
                seq![Arg::Name],
            ),
            Refusal::SelectedNeedsCoopmat2 => (
                "ML_KERNEL selects '{}', which requires NV cooperative matrix 2 support this device lacks",
                seq![Arg::Name],
            ),
            Refusal::SelectedNeedsCoopmat => (
                "ML_KERNEL selects '{}', which requires cooperative-matrix support this device lacks",
                seq![Arg::Name],
            ),
            Refusal::SelectedNeedsF16 => (
                "ML_KERNEL selects '{}', which requires f16 storage support (shaderFloat16 + storageBuffer16BitAccess) this device lacks",
                seq![Arg::Name],
            ),
            Refusal::SelectedOverBudget { shared_bytes, budget } => (
                "ML_KERNEL selects '{}', which declares {} B of workgroup memory, over this device's {} B budget (maxComputeSharedMemorySize)",
                seq![Arg::Name, Arg::Number(shared_bytes as u64), Arg::Number(budget as u64)],
            ),
            Refusal::ForeignTensor { role } => (
                "{} tensor belongs to a different VulkanContext",
                seq![Arg::Text(role.label())],
            ),
            Refusal::AliasedOutput => (
                "C must not alias A or B; in-place matmul is not supported",
                Seq::empty(),
            ),
            Refusal::ForeignPipeline => (
                "Executor::new: pipeline belongs to a different VulkanContext",
                Seq::empty(),
            ),
            Refusal::NoF16ActivationSupport => (
                "matmul with f16 A storage requires cooperative-matrix and f16-storage support, which this device lacks",
                Seq::empty(),
            ),
            Refusal::StreamKZero => (
                "Stream-K dimensions and tile sizes must be non-zero",
                Seq::empty(),
            ),
            Refusal::StreamKUnaligned => (
                "Stream-K shape must be aligned to its tile sizes",
                Seq::empty(),
            ),
            Refusal::StreamKTileOverflow => (
                "Stream-K tile count overflows u32",
                Seq::empty(),
            ),
            Refusal::StreamKIterOverflow => (
                "Stream-K iteration count overflows u32",
                Seq::empty(),
            ),
            Refusal::StreamKGridOverflow => (
                "Stream-K grid size overflows u32",
                Seq::empty(),
            ),
            Refusal::StreamKAccumulate { op } => (
                "{}: accumulate=true is not supported",
                seq![Arg::Text(op.label())],
            ),
            Refusal::StreamKBatch { op, batch } => (
                "{}: only batch==1 is supported (got batch={})",
                seq![Arg::Text(op.label()), Arg::Number(batch as u64)],
            ),
            Refusal::StreamKShape { op, m, n, k } => (
                "{}: shape {}x{}x{} not aligned{}",
                seq![Arg::Text(op.label()), Arg::Number(m as u64), Arg::Number(n as u64), Arg::Number(k as u64), Arg::Text(if op == OpName::RunMatmulsStreamK { " to (128,128,32)" } else { "" })],
            ),
            Refusal::StreamKNoAddresses { op } => (
                "{}: bufferDeviceAddress not available{}",
                seq![Arg::Text(op.label()), Arg::Text(if op == OpName::RunMatmulsStreamK { " on this device" } else { "" })],
            ),
            Refusal::StreamKNoAtomics { op } => (
                "{}: VK_EXT_shader_atomic_float{} not available{}",
                seq![Arg::Text(op.label()), Arg::Text(if op == OpName::RunMatmulsStreamK { " (shaderBufferFloat32AtomicAdd)" } else { "" }), Arg::Text(if op == OpName::RunMatmulsStreamK { " on this device" } else { "" })],
            ),
            Refusal::StreamKGrid { n_tiles, dp_rows, g_sk, max_x, max_y, max_z } => (
                "stream-K dispatch DP=({}, {}, 1) SK=({}, 1, 1) exceeds device maxComputeWorkGroupCount ({}, {}, {})",
                seq![Arg::Number(n_tiles as u64), Arg::Number(dp_rows as u64), Arg::Number(g_sk as u64), Arg::Number(max_x as u64), Arg::Number(max_y as u64), Arg::Number(max_z as u64)],
            ),
            Refusal::StreamKEmpty { m, n, k } => (
                "stream-K schedule produced empty grid for {}x{}x{} (m_tiles*n_tiles=0)",
                seq![Arg::Number(m as u64), Arg::Number(n as u64), Arg::Number(k as u64)],
            ),
            Refusal::SplitRange { splits } => (
                "split-K2: splits={} out of range [2, 65535]",
                seq![Arg::Number(splits as u64)],
            ),
            Refusal::SplitOverK { splits, k } => (
                "split-K2: splits={} exceeds K={}",
                seq![Arg::Number(splits as u64), Arg::Number(k as u64)],
            ),
            Refusal::SplitScratchOverflow => (
                "split-K2 scratch size overflows",
                Seq::empty(),
            ),
            Refusal::SplitScratchAddressing { elements } => (
                "split-K2: batch*M*N*splits = {} exceeds u32 scratch addressing",
                seq![Arg::Number(elements as u64)],
            ),
            Refusal::SplitGridOverflow => (
                "split-K2 dispatch grid Z overflows u32",
                Seq::empty(),
            ),
            Refusal::SplitGrid { gx, gy, gz, max_x, max_y, max_z } => (
                "split-K2 dispatch ({}, {}, {}) exceeds device maxComputeWorkGroupCount ({}, {}, {})",
                seq![Arg::Number(gx as u64), Arg::Number(gy as u64), Arg::Number(gz as u64), Arg::Number(max_x as u64), Arg::Number(max_y as u64), Arg::Number(max_z as u64)],
            ),
            Refusal::SplitOutputAddressing { total } => (
                "split-K2: batch*M*N = {} exceeds u32 addressing",
                seq![Arg::Number(total as u64)],
            ),
            Refusal::SplitReduceGrid { groups } => (
                "split-K2 reduce dispatch ({}) exceeds device maxComputeWorkGroupCount[0]",
                seq![Arg::Number(groups as u64)],
            ),
            Refusal::SplitAccumulate => (
                "run_matmuls_split_k2: accumulate=true is not supported",
                Seq::empty(),
            ),
            Refusal::SplitCountRange { splits } => (
                "run_matmuls_split_k2: num_k_splits={} out of range [1, 65535]",
                seq![Arg::Number(splits as u64)],
            ),
            Refusal::SplitCountOverK { splits, k } => (
                "run_matmuls_split_k2: num_k_splits={} exceeds K={}",
                seq![Arg::Number(splits as u64), Arg::Number(k as u64)],
            ),
            Refusal::SplitNoAddresses => (
                "run_matmuls_split_k2: bufferDeviceAddress not enabled",
                Seq::empty(),
            ),
            Refusal::Misaligned { tile_m, tile_n, tile_k, m, n, k } => (
                "kernel '{}' requires M/N/K aligned to ({}, {}, {}), got ({}, {}, {})",
                seq![Arg::Name, Arg::Number(tile_m as u64), Arg::Number(tile_n as u64), Arg::Number(tile_k as u64), Arg::Number(m as u64), Arg::Number(n as u64), Arg::Number(k as u64)],
            ),
            Refusal::WeightStorage { kernel, b } => (
                "kernel '{}' expects {} B storage but B is {} (pick an {} kernel or unset ML_KERNEL)",
                seq![Arg::Name, Arg::Text(kernel.name()), Arg::Text(b.name()), Arg::Text(if b == DType::F16 { "f16w_*" } else { "f32" })],
            ),
            Refusal::ActivationStorage { kernel, a } => (
                "kernel '{}' expects {} A storage but A is {} (pick a matching kernel or unset ML_KERNEL)",
                seq![Arg::Name, Arg::Text(kernel.name()), Arg::Text(a.name())],
            ),
            Refusal::PackedMismatch => (
                "kernel '{}' and B disagree on the packed layout (unset ML_KERNEL)",
                seq![Arg::Name],
            ),
            Refusal::F16NeedsAddresses => (
                "f16-weight matmuls require bufferDeviceAddress, which this device lacks",
                Seq::empty(),
            ),
            Refusal::EpilogueNeedsAddresses => (
                "fused epilogues require bufferDeviceAddress, which this device lacks",
                Seq::empty(),
            ),
            Refusal::EpilogueUnsupported => (
                "kernel '{}' does not support fused epilogues (only the BDA / BDA_V4 kernel families do; unset ML_KERNEL or pick a *_bda / *_bda_v4 variant)",
                seq![Arg::Name],
            ),
            Refusal::NormedAUnsupported { m } => (
                "kernel '{}' does not implement the fused normed-A GEMV (row_bda-family kernels only; normed-A requires an M=1 row-kernel route, got M={})",
                seq![Arg::Name, Arg::Number(m as u64)],
            ),
            Refusal::StoreUnsupported { m } => (
                "kernel '{}' does not implement the fused store epilogue (f16w row_bda-family kernels only; store requires an M=1 f16-weights row route, got M={})",
                seq![Arg::Name, Arg::Number(m as u64)],
            ),
            Refusal::MatmulGrid { gx, gy, gz, m, n, k, batch, max_x, max_y, max_z } => (
                "matmul dispatch ({}, {}, {}) for M={}, N={}, K={}, batch={} exceeds device maxComputeWorkGroupCount ({}, {}, {})",
                seq![Arg::Number(gx as u64), Arg::Number(gy as u64), Arg::Number(gz as u64), Arg::Number(m as u64), Arg::Number(n as u64), Arg::Number(k as u64), Arg::Number(batch as u64), Arg::Number(max_x as u64), Arg::Number(max_y as u64), Arg::Number(max_z as u64)],
            ),
            Refusal::TooManyOps { ops, max } => (
                "run_ops: {} ops > max_calls_per_submit {}",
                seq![Arg::Number(ops as u64), Arg::Number(max as u64)],
            ),
            Refusal::PrepareEmpty => (
                "prepare_ops: empty op batch",
                Seq::empty(),
            ),
            Refusal::PrepareNeedsAddresses => (
                "prepared submission requires bufferDeviceAddress, which this device lacks",
                Seq::empty(),
            ),
            Refusal::PrepareDescriptors => (
                "prepared submission supports only BDA kernels; '{}' binds descriptor sets (unset ML_KERNEL or pick a *_bda / *_bda_v4 variant)",
                seq![Arg::Name],
            ),
            Refusal::AlreadyInFlight => (
                "PreparedOps::submit: already in flight; call wait() first",
                Seq::empty(),
            ),
            Refusal::NothingSubmitted => (
                "PreparedOps::wait: nothing submitted",
                Seq::empty(),
            ),
            Refusal::NoTunableKernel => (
                "no tunable kernel fits this shape and device's dispatch limits",
                Seq::empty(),
            ),
            Refusal::NoMeasurement => (
                "no candidate produced a measurement",
                Seq::empty(),
            ),
            Refusal::TuneNoTimestamps => (
                "tune_shape: device has no timestamp support",
                Seq::empty(),
            ),
            Refusal::ForcedDescriptors => (
                "run_forced_once: descriptor-bound kernel '{}'",
                seq![Arg::Name],
            ),
            Refusal::TransferTooLarge { op, size, capacity } => (
                "{}: {} bytes > tensor capacity {}",
                seq![Arg::Text(op.label()), Arg::Number(size as u64), Arg::Number(capacity as u64)],
            ),
            Refusal::SliceTooLarge => (
                "slice size does not fit VkDeviceSize",
                Seq::empty(),
            ),
            Refusal::CellNeedsAddresses { op } => (
                "{}: requires bufferDeviceAddress",
                seq![Arg::Text(op.label())],
            ),
            Refusal::TokenCapZero => (
                "create_token_id_buffer: cap must be non-zero",
                Seq::empty(),
            ),
            Refusal::TokenIdsOverCap { ids, cap } => (
                "TokenIdBuffer::write: {} ids exceeds cap {}",
                seq![Arg::Number(ids as u64), Arg::Number(cap as u64)],
            ),
            Refusal::PersistentNeedsAddresses => (
                "persistent kernel requires Vulkan 1.2 bufferDeviceAddress",
                Seq::empty(),
            ),
            Refusal::PersistentPushSize { needed_bytes, limit_bytes } => (
                "persistent push constants require {} bytes; device limit is {}",
                seq![Arg::Number(needed_bytes as u64), Arg::Number(limit_bytes as u64)],
            ),
            Refusal::PersistentForeign { role } => (
                "persistent kernel: tensor {} belongs to a different Vulkan context",
                seq![Arg::Text(role.label())],
            ),
            Refusal::PersistentAlias => (
                "persistent kernel: output C must not alias input A or B",
                Seq::empty(),
            ),
            Refusal::PersistentTiles => (
                "persistent kernel: tile count exceeds u32::MAX",
                Seq::empty(),
            ),
            Refusal::PersistentNoGrid => (
                "persistent kernel: device reports a zero dispatch-X limit",
                Seq::empty(),
            ),
            Refusal::HostLength => (
                "tensor element count does not fit usize",
                Seq::empty(),
            ),
            Refusal::DescriptorOverflow => (
                "slot descriptor count overflows u32",
                Seq::empty(),
            ),
            Refusal::ElementwiseNeedsAddresses => (
                "elementwise ops require bufferDeviceAddress, which this device lacks",
                Seq::empty(),
            ),
            Refusal::ElementwiseGrid { gx, gy, max_x, max_y } => (
                "elementwise dispatch ({}, {}) exceeds device limits ({}, {})",
                seq![Arg::Number(gx as u64), Arg::Number(gy as u64), Arg::Number(max_x as u64), Arg::Number(max_y as u64)],
            ),
            Refusal::NotF32 { op, role } => (
                "{}: {} must be f32 storage",
                seq![Arg::Text(op.label()), Arg::Text(role.label())],
            ),
            Refusal::StorageMismatch { op, input, output } => (
                "{}: input ({}) and output ({}) must share a storage type",
                seq![Arg::Text(op.label()), Arg::Text(input.name()), Arg::Text(output.name())],
            ),
            Refusal::OutputShape { op } => (
                "{}: output shape {} must equal input shape {}",
                seq![Arg::Text(op.label()), Arg::First, Arg::Second],
            ),
            Refusal::RowCount { op, row_count } => (
                "{}: row count {} exceeds u32",
                seq![Arg::Text(op.label()), Arg::Number(row_count as u64)],
            ),
            Refusal::RowsPerGroup { rows_per_group, rows } => (
                "run_softmax_rows: rows_per_group {} must divide rows {}",
                seq![Arg::Number(rows_per_group as u64), Arg::Number(rows as u64)],
            ),
            Refusal::F16LayerNorm { op } => (
                "{}: f16 activations are supported for RMSNorm only (no f16 LayerNorm kernel)",
                seq![Arg::Text(op.label())],
            ),
            Refusal::NormLength { op, role, len, cols } => (
                "{}: {} length {} != row length {}",
                seq![Arg::Text(op.label()), Arg::Text(role.label()), Arg::Number(len as u64), Arg::Number(cols as u64)],
            ),
            Refusal::RotDim { op, rot_dim, head_dim } => (
                "{}: rot_dim {} must be even, >= 2, and <= head_dim {}",
                seq![Arg::Text(op.label()), Arg::Number(rot_dim as u64), Arg::Number(head_dim as u64)],
            ),
            Refusal::RopeInput { op, len, vec_elems } => (
                "{}: input length {} is not a multiple of heads*head_dim {}",
                seq![Arg::Text(op.label()), Arg::Number(len as u64), Arg::Number(vec_elems as u64)],
            ),
            Refusal::RopeTokens { op } => (
                "{}: token count exceeds u32",
                seq![Arg::Text(op.label())],
            ),
            Refusal::RopeTable { op, len, needed, pos_base, tokens, rot_dim } => (
                "{}: table length {} < required {} (pos_base {} + {} tokens, rot_dim {})",
                seq![Arg::Text(op.label()), Arg::Number(len as u64), Arg::Number(needed as u64), Arg::Number(pos_base as u64), Arg::Number(tokens as u64), Arg::Number(rot_dim as u64)],
            ),
            Refusal::SameTensor { op, one, other } => (
                "{}: {} and {} must be different tensors",
                seq![Arg::Text(op.label()), Arg::Text(one.label()), Arg::Text(other.label())],
            ),
            Refusal::DestinationReach { op, reach, len } => (
                "{}: destination access reaches element {} but dst has {}",
                seq![Arg::Text(op.label()), Arg::Number(reach as u64), Arg::Number(len as u64)],
            ),
            Refusal::SourceReach { reach, len } => (
                "run_copy_strided: source access reaches element {} but src has {}",
                seq![Arg::Number(reach as u64), Arg::Number(len as u64)],
            ),
            Refusal::BinaryStorage { b_type, a_type } => (
                "run_binary: b ({}) must match a ({}) storage",
                seq![Arg::Text(b_type.name()), Arg::Text(a_type.name())],
            ),
            Refusal::BinaryCounts { a_len, b_len, out_len } => (
                "run_binary: element counts differ (a {}, b {}, out {})",
                seq![Arg::Number(a_len as u64), Arg::Number(b_len as u64), Arg::Number(out_len as u64)],
            ),
            Refusal::BinaryTooLarge => (
                "run_binary: too large",
                Seq::empty(),
            ),
            Refusal::ZeroExtent { x, y, z } => (
                "run_copy_strided: extent [{}, {}, {}] has a zero axis",
                seq![Arg::Number(x as u64), Arg::Number(y as u64), Arg::Number(z as u64)],
            ),
            Refusal::ExtentProduct => (
                "run_copy_strided: extent product exceeds u32",
                Seq::empty(),
            ),
            Refusal::ForeignResult => (
                "run_argmax: result buffer belongs to a different VulkanContext",
                Seq::empty(),
            ),
            Refusal::ArgmaxTooLong => (
                "run_argmax: input length exceeds u32",
                Seq::empty(),
            ),
            Refusal::ForeignTokens => (
                "run_embed_gather: token buffer belongs to a different VulkanContext",
                Seq::empty(),
            ),
            Refusal::GatherTable => (
                "run_embed_gather: table must be [vocab, embd], got {}",
                seq![Arg::First],
            ),
            Refusal::GatherOut { embd } => (
                "run_embed_gather: out shape {} must be [embd] or [t, embd] with embd={}",
                seq![Arg::First, Arg::Number(embd as u64)],
            ),
            Refusal::GatherTokens { bytes, needed, n_tokens } => (
                "run_embed_gather: token buffer {} B < {} B for {} ids",
                seq![Arg::Number(bytes as u64), Arg::Number(needed as u64), Arg::Number(n_tokens as u64)],
            ),
            Refusal::CacheStorage { op, kt, v } => (
                "{}: kt ({}) and v ({}) must share a storage type",
                seq![Arg::Text(op.label()), Arg::Text(kt.name()), Arg::Text(v.name())],
            ),
            Refusal::KtShape { op } => (
                "{}: kt must be [H_kv, dh, T_max], got {}",
                seq![Arg::Text(op.label()), Arg::First],
            ),
            Refusal::VShape { op } => (
                "{}: v must be [H_kv, T_max, dh], got {}",
                seq![Arg::Text(op.label()), Arg::First],
            ),
            Refusal::AttnCaches => (
                "run_attn_decode: inconsistent caches kt {}, v {}",
                seq![Arg::First, Arg::Second],
            ),
            Refusal::AttnHeadDim { dh } => (
                "run_attn_decode: head dimension {} unsupported (compiled variant: 64)",
                seq![Arg::Number(dh as u64)],
            ),
            Refusal::AttnQ { len, kv_heads, dh } => (
                "run_attn_decode: q length {} must be kv_heads*group*dh (kv_heads {}, dh {})",
                seq![Arg::Number(len as u64), Arg::Number(kv_heads as u64), Arg::Number(dh as u64)],
            ),
            Refusal::AttnGroupOverflow => (
                "run_attn_decode: group exceeds u32",
                Seq::empty(),
            ),
            Refusal::AttnGroup { group } => (
                "run_attn_decode: GQA group {} unsupported (1..=8)",
                seq![Arg::Number(group as u64)],
            ),
            Refusal::AttnOut { out_len, q_len } => (
                "run_attn_decode: out length {} must equal q length {}",
                seq![Arg::Number(out_len as u64), Arg::Number(q_len as u64)],
            ),
            Refusal::AttnKvLen { kv_len, t_max } => (
                "run_attn_decode: kv_len {} out of range 1..={}",
                seq![Arg::Number(kv_len as u64), Arg::Number(t_max as u64)],
            ),
            Refusal::AttnScratch { len, needed, kv_heads, chunks, group } => (
                "run_attn_decode: scratch length {} < required {} (kv_heads {} * chunks {} * group {} * (dh+2))",
                seq![Arg::Number(len as u64), Arg::Number(needed as u64), Arg::Number(kv_heads as u64), Arg::Number(chunks as u64), Arg::Number(group as u64)],
            ),
            Refusal::FlashCaches => (
                "run_flash_attention: inconsistent cache shapes kt {}, v {}",
                seq![Arg::First, Arg::Second],
            ),
            Refusal::FlashHeadsZero => (
                "run_flash_attention: token_major_heads must be nonzero",
                Seq::empty(),
            ),
            Refusal::FlashTokenMajorQ { t_q, heads, dh } => (
                "run_flash_attention: token-major q {} does not hold [T={}, H={}, dh={}]",
                seq![Arg::First, Arg::Number(t_q as u64), Arg::Number(heads as u64), Arg::Number(dh as u64)],
            ),
            Refusal::FlashQShape => (
                "run_flash_attention: q must be [H, T_q, dh], got {}",
                seq![Arg::First],
            ),
            Refusal::FlashQDim { q_dh, dh } => (
                "run_flash_attention: q dh {} != cache dh {} (q {}, kt {})",
                seq![Arg::Number(q_dh as u64), Arg::Number(dh as u64), Arg::First, Arg::Second],
            ),
            Refusal::FlashOutHeadsZero => (
                "run_flash_attention: out_token_major_heads must be nonzero",
                Seq::empty(),
            ),
            Refusal::FlashOutHeads { out_heads, heads } => (
                "run_flash_attention: out_token_major_heads {} != q heads {}",
                seq![Arg::Number(out_heads as u64), Arg::Number(heads as u64)],
            ),
            Refusal::FlashTokenMajorOut { t_q, heads, dh } => (
                "run_flash_attention: token-major out {} does not hold [T={}, H={}, dh={}]",
                seq![Arg::First, Arg::Number(t_q as u64), Arg::Number(heads as u64), Arg::Number(dh as u64)],
            ),
            Refusal::FlashOutMatch => (
                "run_flash_attention: out shape {} must match token-major q {}",
                seq![Arg::First, Arg::Second],
            ),
            Refusal::FlashOutShape => (
                "run_flash_attention: out shape {} must equal q shape {}",
                seq![Arg::First, Arg::Second],
            ),
            Refusal::FlashGroups { heads, kv_heads } => (
                "run_flash_attention: H={} must be a multiple of H_kv={}",
                seq![Arg::Number(heads as u64), Arg::Number(kv_heads as u64)],
            ),
            Refusal::FlashKvLen { kv_len, t_max } => (
                "run_flash_attention: kv_len {} exceeds cache T_max {}",
                seq![Arg::Number(kv_len as u64), Arg::Number(t_max as u64)],
            ),
            Refusal::FlashF16NeedsCm2 => (
                "run_flash_attention: f16 q/out require NV_cooperative_matrix2 support, which this device lacks",
                Seq::empty(),
            ),
            Refusal::FlashF16Variant { kv, dh } => (
                "run_flash_attention: f16 q/out are compiled for f16 KV caches with head dimension 64 on the CM2 route only (kv {}, dh {})",
                seq![Arg::Text(kv.name()), Arg::Number(dh as u64)],
            ),
            Refusal::FlashHeadDim { dh } => (
                "run_flash_attention: head dimension {} unsupported (compiled variants: 64, 128)",
                seq![Arg::Number(dh as u64)],
            ),
            Refusal::PackStorage { role, got } => (
                "run_prefill_qkv_pack: {} must be f16 storage, got {}",
                seq![Arg::Text(role.label()), Arg::Text(got.name())],
            ),
            Refusal::PackGeometry { heads, kv_heads, head_dim, rot_dim } => (
                "run_prefill_qkv_pack: invalid heads/kv_heads/dh/rot_dim ({}/{}/{}/{})",
                seq![Arg::Number(heads as u64), Arg::Number(kv_heads as u64), Arg::Number(head_dim as u64), Arg::Number(rot_dim as u64)],
            ),
            Refusal::PackQkvShape => (
                "run_prefill_qkv_pack: qkv must be [T, n_qkv], got {}",
                seq![Arg::First],
            ),
            Refusal::PackQkvWidth { width, want } => (
                "run_prefill_qkv_pack: qkv N {} != H*dh + 2*H_kv*dh ({})",
                seq![Arg::Number(width as u64), Arg::Number(want as u64)],
            ),
            Refusal::PackQShape { heads, tokens, head_dim } => (
                "run_prefill_qkv_pack: q must be head-major [H={}, T={}, dh={}], got {}",
                seq![Arg::Number(heads as u64), Arg::Number(tokens as u64), Arg::Number(head_dim as u64), Arg::First],
            ),
            Refusal::PackCaches { kv_heads, head_dim } => (
                "run_prefill_qkv_pack: cache shapes kt {} v {} vs H_kv={} dh={}",
                seq![Arg::First, Arg::Second, Arg::Number(kv_heads as u64), Arg::Number(head_dim as u64)],
            ),
            Refusal::PackPosition { pos_base, tokens, t_max } => (
                "run_prefill_qkv_pack: pos_base {} + T {} exceeds T_max {}",
                seq![Arg::Number(pos_base as u64), Arg::Number(tokens as u64), Arg::Number(t_max as u64)],
            ),
            Refusal::PackHeadDim { head_dim } => (
                "run_prefill_qkv_pack: head_dim {} must be a multiple of 4",
                seq![Arg::Number(head_dim as u64)],
            ),
            Refusal::ChainNoScope => (
                "gemv_chain: device lacks vulkanMemoryModelDeviceScope (required for the quorum barrier)",
                Seq::empty(),
            ),
            Refusal::ChainEmpty => (
                "gemv_chain: empty job list",
                Seq::empty(),
            ),
            Refusal::ChainTooLong { jobs } => (
                "gemv_chain: {} jobs exceeds max 8",
                seq![Arg::Number(jobs as u64)],
            ),
            Refusal::ChainStore { index } => (
                "gemv_chain[{}]: fused store epilogues are not supported",
                seq![Arg::Number(index as u64)],
            ),
            Refusal::ChainAccumulate { index } => (
                "gemv_chain[{}]: accumulate is not supported",
                seq![Arg::Number(index as u64)],
            ),
            Refusal::ChainActivations { index } => (
                "gemv_chain[{}]: A and C must be f32 storage",
                seq![Arg::Number(index as u64)],
            ),
            Refusal::ChainWeights { index } => (
                "gemv_chain[{}]: B must be f16 storage",
                seq![Arg::Number(index as u64)],
            ),
            Refusal::ChainPacked { index } => (
                "gemv_chain[{}]: packed-B layout is not supported",
                seq![Arg::Number(index as u64)],
            ),
            Refusal::ChainBias { index } => (
                "gemv_chain[{}]: bias epilogue is not supported",
                seq![Arg::Number(index as u64)],
            ),
            Refusal::ChainRow { index, batch, m } => (
                "gemv_chain[{}]: requires batch=1 M=1 (got B={} M={})",
                seq![Arg::Number(index as u64), Arg::Number(batch as u64), Arg::Number(m as u64)],
            ),
            Refusal::ChainRelu { index } => (
                "gemv_chain[{}]: unsupported activation Relu",
                seq![Arg::Number(index as u64)],
            ),
            Refusal::ChainGelu { index } => (
                "gemv_chain[{}]: unsupported activation Gelu",
                seq![Arg::Number(index as u64)],
            ),
            Refusal::ChainNormedAddScaled { index } => (
                "gemv_chain[{}]: NORM_A cannot combine with AddScaled",
                seq![Arg::Number(index as u64)],
            ),
            Refusal::EmptyOpList { op } => (
                "{}: empty op list",
                seq![Arg::Text(op.label())],
            ),
            Refusal::GraphDescriptors => (
                "run_exec_ops: kernel '{}' binds descriptor sets and cannot be recorded in a mixed graph (unset ML_KERNEL or pick a BDA kernel)",
                seq![Arg::Name],
            ),
            Refusal::ChainCount { jobs } => (
                "run_exec_ops: GemvChain n={} out of range",
                seq![Arg::Number(jobs as u64)],
            ),
            Refusal::PosMismatch { used, prepared } => (
                "prepare_exec_ops: op references pos_addr {} but the prepared position buffer is {} (pass the same PosBuffer)",
                seq![Arg::Hex(used), Arg::Hex(prepared)],
            ),
            Refusal::TotalFlopOverflow => (
                "total FLOP count overflows u64",
                Seq::empty(),
            ),
        }
    }

    fn parts(self) -> (r: (&'static str, Vec<Arg>))
        ensures
            r.0 == self.message_parts().0,
            r.1@ =~= self.message_parts().1,
    {
        match self {
            Refusal::EmptyShape => (
                "tensor shape must have at least one dimension",
                Vec::new(),
            ),
            Refusal::ZeroDimension { index } => (
                "tensor dimension {} must be non-zero",
                vec![Arg::Number(index as u64)],
            ),
            Refusal::ElementCountOverflow => (
                "tensor element count overflows u64",
                Vec::new(),
            ),
            Refusal::ByteSizeOverflow => (
                "tensor byte size overflows u64",
                Vec::new(),
            ),
            Refusal::NoF16Storage => (
                "device does not support f16 storage (shaderFloat16 + storageBuffer16BitAccess)",
                Vec::new(),
            ),
            Refusal::MatmulRank { rank } => (
                "tensor rank {} not supported by matmul (must be 2 or 3)",
                vec![Arg::Number(rank as u64)],
            ),
            Refusal::MatmulZeroDimension { batch, rows, cols } => (
                "matmul dimensions must be non-zero, got B={} rows={} cols={}",
                vec![Arg::Number(batch as u64), Arg::Number(rows as u64), Arg::Number(cols as u64)],
            ),
            Refusal::BatchStrideOverflow { operand } => (
                "{} batch stride overflows u32",
                vec![Arg::Text(operand.label())],
            ),
            Refusal::LayoutTooLarge { operand, batch, rows, cols } => (
                "{} layout exceeds shader u32 indexing: B={} rows={} cols={}",
                vec![Arg::Text(operand.label()), Arg::Number(batch as u64), Arg::Number(rows as u64), Arg::Number(cols as u64)],
            ),
            Refusal::DimMismatch { left_label, left, right_label, right } => (
                "matmul shape mismatch: {}={} vs {}={}",
                vec![Arg::Text(left_label.label()), Arg::Number(left as u64), Arg::Text(right_label.label()), Arg::Number(right as u64)],
            ),
            Refusal::BatchMismatch { operand, input_batch, output_batch } => (
                "matmul incompatible batch dims: {}.B={} cannot broadcast to C.B={}",
                vec![Arg::Text(operand.label()), Arg::Number(input_batch as u64), Arg::Number(output_batch as u64)],
            ),
            Refusal::FlopOverflow => (
                "matmul FLOP count overflows u64",
                Vec::new(),
            ),
            Refusal::BiasShape { batch, n } => (
                "epilogue bias shape {}, expected [{}] or [{}, {}]",
                vec![Arg::First, Arg::Number(n as u64), Arg::Number(batch as u64), Arg::Number(n as u64)],
            ),
            Refusal::DShape => (
                "epilogue D shape {} must equal C shape {}",
                vec![Arg::First, Arg::Second],
            ),
            Refusal::NormedAWithBias => (
                "normed-A cannot combine with an epilogue bias or the AddScaled binary",
                Vec::new(),
            ),
            Refusal::StoreWithAccumulate => (
                "a fused store cannot combine with accumulate",
                Vec::new(),
            ),
            Refusal::StoreWithEpilogue => (
                "a fused store cannot combine with an epilogue",
                Vec::new(),
            ),
            Refusal::StoreHeadDim { head_dim, n } => (
                "fused store head_dim {} must be even and divide N={}",
                vec![Arg::Number(head_dim as u64), Arg::Number(n as u64)],
            ),
            Refusal::StoreTable { len, needed } => (
                "fused store table length {} < required {}",
                vec![Arg::Number(len as u64), Arg::Number(needed as u64)],
            ),
            Refusal::StoreBounds { len } => (
                "fused store reaches element past dst length {}",
                vec![Arg::Number(len as u64)],
            ),
            Refusal::UnknownKernel => (
                "invalid ML_KERNEL '{}', expected one of auto, large, small, m64n128, m128n64, m128n64k64, m64n32, k64, row_bda, col_bda, outer_bda, bk16, v2, m64n128k64, m128n128_t4, m256n64, v3, any *_bda / *_bda_v4 variant, or an f16w_* kernel (f16 weights)",
                vec![Arg::Name],
            ),
            Refusal::DeviceIndex => (
                "invalid ML_DEVICE '{}', expected a number behind index:",
                vec![Arg::Name],
            ),
            Refusal::UnknownTile => (
                "invalid ML_KERNEL '{}', expected auto, large, or small",
                vec![Arg::Name],
            ),
            Refusal::SelectedNeedsCoopmat2 => (
                "ML_KERNEL selects '{}', which requires NV cooperative matrix 2 support this device lacks",
                vec![Arg::Name],
            ),
            Refusal::SelectedNeedsCoopmat => (
                "ML_KERNEL selects '{}', which requires cooperative-matrix support this device lacks",
                vec![Arg::Name],
            ),
            Refusal::SelectedNeedsF16 => (
                "ML_KERNEL selects '{}', which requires f16 storage support (shaderFloat16 + storageBuffer16BitAccess) this device lacks",
                vec![Arg::Name],
            ),
            Refusal::SelectedOverBudget { shared_bytes, budget } => (
                "ML_KERNEL selects '{}', which declares {} B of workgroup memory, over this device's {} B budget (maxComputeSharedMemorySize)",
                vec![Arg::Name, Arg::Number(shared_bytes as u64), Arg::Number(budget as u64)],
            ),
            Refusal::ForeignTensor { role } => (
                "{} tensor belongs to a different VulkanContext",
                vec![Arg::Text(role.label())],
            ),
            Refusal::AliasedOutput => (
                "C must not alias A or B; in-place matmul is not supported",
                Vec::new(),
            ),
            Refusal::ForeignPipeline => (
                "Executor::new: pipeline belongs to a different VulkanContext",
                Vec::new(),
            ),
            Refusal::NoF16ActivationSupport => (
                "matmul with f16 A storage requires cooperative-matrix and f16-storage support, which this device lacks",
                Vec::new(),
            ),
            Refusal::StreamKZero => (
                "Stream-K dimensions and tile sizes must be non-zero",
                Vec::new(),
            ),
            Refusal::StreamKUnaligned => (
                "Stream-K shape must be aligned to its tile sizes",
                Vec::new(),
            ),
            Refusal::StreamKTileOverflow => (
                "Stream-K tile count overflows u32",
                Vec::new(),
            ),
            Refusal::StreamKIterOverflow => (
                "Stream-K iteration count overflows u32",
                Vec::new(),
            ),
            Refusal::StreamKGridOverflow => (
                "Stream-K grid size overflows u32",
                Vec::new(),
            ),
            Refusal::StreamKAccumulate { op } => (
                "{}: accumulate=true is not supported",
                vec![Arg::Text(op.label())],
            ),
            Refusal::StreamKBatch { op, batch } => (
                "{}: only batch==1 is supported (got batch={})",
                vec![Arg::Text(op.label()), Arg::Number(batch as u64)],
            ),
            Refusal::StreamKShape { op, m, n, k } => (
                "{}: shape {}x{}x{} not aligned{}",
                vec![Arg::Text(op.label()), Arg::Number(m as u64), Arg::Number(n as u64), Arg::Number(k as u64), Arg::Text(if op == OpName::RunMatmulsStreamK { " to (128,128,32)" } else { "" })],
            ),
            Refusal::StreamKNoAddresses { op } => (
                "{}: bufferDeviceAddress not available{}",
                vec![Arg::Text(op.label()), Arg::Text(if op == OpName::RunMatmulsStreamK { " on this device" } else { "" })],
            ),
            Refusal::StreamKNoAtomics { op } => (
                "{}: VK_EXT_shader_atomic_float{} not available{}",
                vec![Arg::Text(op.label()), Arg::Text(if op == OpName::RunMatmulsStreamK { " (shaderBufferFloat32AtomicAdd)" } else { "" }), Arg::Text(if op == OpName::RunMatmulsStreamK { " on this device" } else { "" })],
            ),
            Refusal::StreamKGrid { n_tiles, dp_rows, g_sk, max_x, max_y, max_z } => (
                "stream-K dispatch DP=({}, {}, 1) SK=({}, 1, 1) exceeds device maxComputeWorkGroupCount ({}, {}, {})",
                vec![Arg::Number(n_tiles as u64), Arg::Number(dp_rows as u64), Arg::Number(g_sk as u64), Arg::Number(max_x as u64), Arg::Number(max_y as u64), Arg::Number(max_z as u64)],
            ),
            Refusal::StreamKEmpty { m, n, k } => (
                "stream-K schedule produced empty grid for {}x{}x{} (m_tiles*n_tiles=0)",
                vec![Arg::Number(m as u64), Arg::Number(n as u64), Arg::Number(k as u64)],
            ),
            Refusal::SplitRange { splits } => (
                "split-K2: splits={} out of range [2, 65535]",
                vec![Arg::Number(splits as u64)],
            ),
            Refusal::SplitOverK { splits, k } => (
                "split-K2: splits={} exceeds K={}",
                vec![Arg::Number(splits as u64), Arg::Number(k as u64)],
            ),
            Refusal::SplitScratchOverflow => (
                "split-K2 scratch size overflows",
                Vec::new(),
            ),
            Refusal::SplitScratchAddressing { elements } => (
                "split-K2: batch*M*N*splits = {} exceeds u32 scratch addressing",
                vec![Arg::Number(elements as u64)],
            ),
            Refusal::SplitGridOverflow => (
                "split-K2 dispatch grid Z overflows u32",
                Vec::new(),
            ),
            Refusal::SplitGrid { gx, gy, gz, max_x, max_y, max_z } => (
                "split-K2 dispatch ({}, {}, {}) exceeds device maxComputeWorkGroupCount ({}, {}, {})",
                vec![Arg::Number(gx as u64), Arg::Number(gy as u64), Arg::Number(gz as u64), Arg::Number(max_x as u64), Arg::Number(max_y as u64), Arg::Number(max_z as u64)],
            ),
            Refusal::SplitOutputAddressing { total } => (
                "split-K2: batch*M*N = {} exceeds u32 addressing",
                vec![Arg::Number(total as u64)],
            ),
            Refusal::SplitReduceGrid { groups } => (
                "split-K2 reduce dispatch ({}) exceeds device maxComputeWorkGroupCount[0]",
                vec![Arg::Number(groups as u64)],
            ),
            Refusal::SplitAccumulate => (
                "run_matmuls_split_k2: accumulate=true is not supported",
                Vec::new(),
            ),
            Refusal::SplitCountRange { splits } => (
                "run_matmuls_split_k2: num_k_splits={} out of range [1, 65535]",
                vec![Arg::Number(splits as u64)],
            ),
            Refusal::SplitCountOverK { splits, k } => (
                "run_matmuls_split_k2: num_k_splits={} exceeds K={}",
                vec![Arg::Number(splits as u64), Arg::Number(k as u64)],
            ),
            Refusal::SplitNoAddresses => (
                "run_matmuls_split_k2: bufferDeviceAddress not enabled",
                Vec::new(),
            ),
            Refusal::Misaligned { tile_m, tile_n, tile_k, m, n, k } => (
                "kernel '{}' requires M/N/K aligned to ({}, {}, {}), got ({}, {}, {})",
                vec![Arg::Name, Arg::Number(tile_m as u64), Arg::Number(tile_n as u64), Arg::Number(tile_k as u64), Arg::Number(m as u64), Arg::Number(n as u64), Arg::Number(k as u64)],
            ),
            Refusal::WeightStorage { kernel, b } => (
                "kernel '{}' expects {} B storage but B is {} (pick an {} kernel or unset ML_KERNEL)",
                vec![Arg::Name, Arg::Text(kernel.name()), Arg::Text(b.name()), Arg::Text(if b == DType::F16 { "f16w_*" } else { "f32" })],
            ),
            Refusal::ActivationStorage { kernel, a } => (
                "kernel '{}' expects {} A storage but A is {} (pick a matching kernel or unset ML_KERNEL)",
                vec![Arg::Name, Arg::Text(kernel.name()), Arg::Text(a.name())],
            ),
            Refusal::PackedMismatch => (
                "kernel '{}' and B disagree on the packed layout (unset ML_KERNEL)",
                vec![Arg::Name],
            ),
            Refusal::F16NeedsAddresses => (
                "f16-weight matmuls require bufferDeviceAddress, which this device lacks",
                Vec::new(),
            ),
            Refusal::EpilogueNeedsAddresses => (
                "fused epilogues require bufferDeviceAddress, which this device lacks",
                Vec::new(),
            ),
            Refusal::EpilogueUnsupported => (
                "kernel '{}' does not support fused epilogues (only the BDA / BDA_V4 kernel families do; unset ML_KERNEL or pick a *_bda / *_bda_v4 variant)",
                vec![Arg::Name],
            ),
            Refusal::NormedAUnsupported { m } => (
                "kernel '{}' does not implement the fused normed-A GEMV (row_bda-family kernels only; normed-A requires an M=1 row-kernel route, got M={})",
                vec![Arg::Name, Arg::Number(m as u64)],
            ),
            Refusal::StoreUnsupported { m } => (
                "kernel '{}' does not implement the fused store epilogue (f16w row_bda-family kernels only; store requires an M=1 f16-weights row route, got M={})",
                vec![Arg::Name, Arg::Number(m as u64)],
            ),
            Refusal::MatmulGrid { gx, gy, gz, m, n, k, batch, max_x, max_y, max_z } => (
                "matmul dispatch ({}, {}, {}) for M={}, N={}, K={}, batch={} exceeds device maxComputeWorkGroupCount ({}, {}, {})",
                vec![Arg::Number(gx as u64), Arg::Number(gy as u64), Arg::Number(gz as u64), Arg::Number(m as u64), Arg::Number(n as u64), Arg::Number(k as u64), Arg::Number(batch as u64), Arg::Number(max_x as u64), Arg::Number(max_y as u64), Arg::Number(max_z as u64)],
            ),
            Refusal::TooManyOps { ops, max } => (
                "run_ops: {} ops > max_calls_per_submit {}",
                vec![Arg::Number(ops as u64), Arg::Number(max as u64)],
            ),
            Refusal::PrepareEmpty => (
                "prepare_ops: empty op batch",
                Vec::new(),
            ),
            Refusal::PrepareNeedsAddresses => (
                "prepared submission requires bufferDeviceAddress, which this device lacks",
                Vec::new(),
            ),
            Refusal::PrepareDescriptors => (
                "prepared submission supports only BDA kernels; '{}' binds descriptor sets (unset ML_KERNEL or pick a *_bda / *_bda_v4 variant)",
                vec![Arg::Name],
            ),
            Refusal::AlreadyInFlight => (
                "PreparedOps::submit: already in flight; call wait() first",
                Vec::new(),
            ),
            Refusal::NothingSubmitted => (
                "PreparedOps::wait: nothing submitted",
                Vec::new(),
            ),
            Refusal::NoTunableKernel => (
                "no tunable kernel fits this shape and device's dispatch limits",
                Vec::new(),
            ),
            Refusal::NoMeasurement => (
                "no candidate produced a measurement",
                Vec::new(),
            ),
            Refusal::TuneNoTimestamps => (
                "tune_shape: device has no timestamp support",
                Vec::new(),
            ),
            Refusal::ForcedDescriptors => (
                "run_forced_once: descriptor-bound kernel '{}'",
                vec![Arg::Name],
            ),
            Refusal::TransferTooLarge { op, size, capacity } => (
                "{}: {} bytes > tensor capacity {}",
                vec![Arg::Text(op.label()), Arg::Number(size as u64), Arg::Number(capacity as u64)],
            ),
            Refusal::SliceTooLarge => (
                "slice size does not fit VkDeviceSize",
                Vec::new(),
            ),
            Refusal::CellNeedsAddresses { op } => (
                "{}: requires bufferDeviceAddress",
                vec![Arg::Text(op.label())],
            ),
            Refusal::TokenCapZero => (
                "create_token_id_buffer: cap must be non-zero",
                Vec::new(),
            ),
            Refusal::TokenIdsOverCap { ids, cap } => (
                "TokenIdBuffer::write: {} ids exceeds cap {}",
                vec![Arg::Number(ids as u64), Arg::Number(cap as u64)],
            ),
            Refusal::PersistentNeedsAddresses => (
                "persistent kernel requires Vulkan 1.2 bufferDeviceAddress",
                Vec::new(),
            ),
            Refusal::PersistentPushSize { needed_bytes, limit_bytes } => (
                "persistent push constants require {} bytes; device limit is {}",
                vec![Arg::Number(needed_bytes as u64), Arg::Number(limit_bytes as u64)],
            ),
            Refusal::PersistentForeign { role } => (
                "persistent kernel: tensor {} belongs to a different Vulkan context",
                vec![Arg::Text(role.label())],
            ),
            Refusal::PersistentAlias => (
                "persistent kernel: output C must not alias input A or B",
                Vec::new(),
            ),
            Refusal::PersistentTiles => (
                "persistent kernel: tile count exceeds u32::MAX",
                Vec::new(),
            ),
            Refusal::PersistentNoGrid => (
                "persistent kernel: device reports a zero dispatch-X limit",
                Vec::new(),
            ),
            Refusal::HostLength => (
                "tensor element count does not fit usize",
                Vec::new(),
            ),
            Refusal::DescriptorOverflow => (
                "slot descriptor count overflows u32",
                Vec::new(),
            ),
            Refusal::ElementwiseNeedsAddresses => (
                "elementwise ops require bufferDeviceAddress, which this device lacks",
                Vec::new(),
            ),
            Refusal::ElementwiseGrid { gx, gy, max_x, max_y } => (
                "elementwise dispatch ({}, {}) exceeds device limits ({}, {})",
                vec![Arg::Number(gx as u64), Arg::Number(gy as u64), Arg::Number(max_x as u64), Arg::Number(max_y as u64)],
            ),
            Refusal::NotF32 { op, role } => (
                "{}: {} must be f32 storage",
                vec![Arg::Text(op.label()), Arg::Text(role.label())],
            ),
            Refusal::StorageMismatch { op, input, output } => (
                "{}: input ({}) and output ({}) must share a storage type",
                vec![Arg::Text(op.label()), Arg::Text(input.name()), Arg::Text(output.name())],
            ),
            Refusal::OutputShape { op } => (
                "{}: output shape {} must equal input shape {}",
                vec![Arg::Text(op.label()), Arg::First, Arg::Second],
            ),
            Refusal::RowCount { op, row_count } => (
                "{}: row count {} exceeds u32",
                vec![Arg::Text(op.label()), Arg::Number(row_count as u64)],
            ),
            Refusal::RowsPerGroup { rows_per_group, rows } => (
                "run_softmax_rows: rows_per_group {} must divide rows {}",
                vec![Arg::Number(rows_per_group as u64), Arg::Number(rows as u64)],
            ),
            Refusal::F16LayerNorm { op } => (
                "{}: f16 activations are supported for RMSNorm only (no f16 LayerNorm kernel)",
                vec![Arg::Text(op.label())],
            ),
            Refusal::NormLength { op, role, len, cols } => (
                "{}: {} length {} != row length {}",
                vec![Arg::Text(op.label()), Arg::Text(role.label()), Arg::Number(len as u64), Arg::Number(cols as u64)],
            ),
            Refusal::RotDim { op, rot_dim, head_dim } => (
                "{}: rot_dim {} must be even, >= 2, and <= head_dim {}",
                vec![Arg::Text(op.label()), Arg::Number(rot_dim as u64), Arg::Number(head_dim as u64)],
            ),
            Refusal::RopeInput { op, len, vec_elems } => (
                "{}: input length {} is not a multiple of heads*head_dim {}",
                vec![Arg::Text(op.label()), Arg::Number(len as u64), Arg::Number(vec_elems as u64)],
            ),
            Refusal::RopeTokens { op } => (
                "{}: token count exceeds u32",
                vec![Arg::Text(op.label())],
            ),
            Refusal::RopeTable { op, len, needed, pos_base, tokens, rot_dim } => (
                "{}: table length {} < required {} (pos_base {} + {} tokens, rot_dim {})",
                vec![Arg::Text(op.label()), Arg::Number(len as u64), Arg::Number(needed as u64), Arg::Number(pos_base as u64), Arg::Number(tokens as u64), Arg::Number(rot_dim as u64)],
            ),
            Refusal::SameTensor { op, one, other } => (
                "{}: {} and {} must be different tensors",
                vec![Arg::Text(op.label()), Arg::Text(one.label()), Arg::Text(other.label())],
            ),
            Refusal::DestinationReach { op, reach, len } => (
                "{}: destination access reaches element {} but dst has {}",
                vec![Arg::Text(op.label()), Arg::Number(reach as u64), Arg::Number(len as u64)],
            ),
            Refusal::SourceReach { reach, len } => (
                "run_copy_strided: source access reaches element {} but src has {}",
                vec![Arg::Number(reach as u64), Arg::Number(len as u64)],
            ),
            Refusal::BinaryStorage { b_type, a_type } => (
                "run_binary: b ({}) must match a ({}) storage",
                vec![Arg::Text(b_type.name()), Arg::Text(a_type.name())],
            ),
            Refusal::BinaryCounts { a_len, b_len, out_len } => (
                "run_binary: element counts differ (a {}, b {}, out {})",
                vec![Arg::Number(a_len as u64), Arg::Number(b_len as u64), Arg::Number(out_len as u64)],
            ),
            Refusal::BinaryTooLarge => (
                "run_binary: too large",
                Vec::new(),
            ),
            Refusal::ZeroExtent { x, y, z } => (
                "run_copy_strided: extent [{}, {}, {}] has a zero axis",
                vec![Arg::Number(x as u64), Arg::Number(y as u64), Arg::Number(z as u64)],
            ),
            Refusal::ExtentProduct => (
                "run_copy_strided: extent product exceeds u32",
                Vec::new(),
            ),
            Refusal::ForeignResult => (
                "run_argmax: result buffer belongs to a different VulkanContext",
                Vec::new(),
            ),
            Refusal::ArgmaxTooLong => (
                "run_argmax: input length exceeds u32",
                Vec::new(),
            ),
            Refusal::ForeignTokens => (
                "run_embed_gather: token buffer belongs to a different VulkanContext",
                Vec::new(),
            ),
            Refusal::GatherTable => (
                "run_embed_gather: table must be [vocab, embd], got {}",
                vec![Arg::First],
            ),
            Refusal::GatherOut { embd } => (
                "run_embed_gather: out shape {} must be [embd] or [t, embd] with embd={}",
                vec![Arg::First, Arg::Number(embd as u64)],
            ),
            Refusal::GatherTokens { bytes, needed, n_tokens } => (
                "run_embed_gather: token buffer {} B < {} B for {} ids",
                vec![Arg::Number(bytes as u64), Arg::Number(needed as u64), Arg::Number(n_tokens as u64)],
            ),
            Refusal::CacheStorage { op, kt, v } => (
                "{}: kt ({}) and v ({}) must share a storage type",
                vec![Arg::Text(op.label()), Arg::Text(kt.name()), Arg::Text(v.name())],
            ),
            Refusal::KtShape { op } => (
                "{}: kt must be [H_kv, dh, T_max], got {}",
                vec![Arg::Text(op.label()), Arg::First],
            ),
            Refusal::VShape { op } => (
                "{}: v must be [H_kv, T_max, dh], got {}",
                vec![Arg::Text(op.label()), Arg::First],
            ),
            Refusal::AttnCaches => (
                "run_attn_decode: inconsistent caches kt {}, v {}",
                vec![Arg::First, Arg::Second],
            ),
            Refusal::AttnHeadDim { dh } => (
                "run_attn_decode: head dimension {} unsupported (compiled variant: 64)",
                vec![Arg::Number(dh as u64)],
            ),
            Refusal::AttnQ { len, kv_heads, dh } => (
                "run_attn_decode: q length {} must be kv_heads*group*dh (kv_heads {}, dh {})",
                vec![Arg::Number(len as u64), Arg::Number(kv_heads as u64), Arg::Number(dh as u64)],
            ),
            Refusal::AttnGroupOverflow => (
                "run_attn_decode: group exceeds u32",
                Vec::new(),
            ),
            Refusal::AttnGroup { group } => (
                "run_attn_decode: GQA group {} unsupported (1..=8)",
                vec![Arg::Number(group as u64)],
            ),
            Refusal::AttnOut { out_len, q_len } => (
                "run_attn_decode: out length {} must equal q length {}",
                vec![Arg::Number(out_len as u64), Arg::Number(q_len as u64)],
            ),
            Refusal::AttnKvLen { kv_len, t_max } => (
                "run_attn_decode: kv_len {} out of range 1..={}",
                vec![Arg::Number(kv_len as u64), Arg::Number(t_max as u64)],
            ),
            Refusal::AttnScratch { len, needed, kv_heads, chunks, group } => (
                "run_attn_decode: scratch length {} < required {} (kv_heads {} * chunks {} * group {} * (dh+2))",
                vec![Arg::Number(len as u64), Arg::Number(needed as u64), Arg::Number(kv_heads as u64), Arg::Number(chunks as u64), Arg::Number(group as u64)],
            ),
            Refusal::FlashCaches => (
                "run_flash_attention: inconsistent cache shapes kt {}, v {}",
                vec![Arg::First, Arg::Second],
            ),
            Refusal::FlashHeadsZero => (
                "run_flash_attention: token_major_heads must be nonzero",
                Vec::new(),
            ),
            Refusal::FlashTokenMajorQ { t_q, heads, dh } => (
                "run_flash_attention: token-major q {} does not hold [T={}, H={}, dh={}]",
                vec![Arg::First, Arg::Number(t_q as u64), Arg::Number(heads as u64), Arg::Number(dh as u64)],
            ),
            Refusal::FlashQShape => (
                "run_flash_attention: q must be [H, T_q, dh], got {}",
                vec![Arg::First],
            ),
            Refusal::FlashQDim { q_dh, dh } => (
                "run_flash_attention: q dh {} != cache dh {} (q {}, kt {})",
                vec![Arg::Number(q_dh as u64), Arg::Number(dh as u64), Arg::First, Arg::Second],
            ),
            Refusal::FlashOutHeadsZero => (
                "run_flash_attention: out_token_major_heads must be nonzero",
                Vec::new(),
            ),
            Refusal::FlashOutHeads { out_heads, heads } => (
                "run_flash_attention: out_token_major_heads {} != q heads {}",
                vec![Arg::Number(out_heads as u64), Arg::Number(heads as u64)],
            ),
            Refusal::FlashTokenMajorOut { t_q, heads, dh } => (
                "run_flash_attention: token-major out {} does not hold [T={}, H={}, dh={}]",
                vec![Arg::First, Arg::Number(t_q as u64), Arg::Number(heads as u64), Arg::Number(dh as u64)],
            ),
            Refusal::FlashOutMatch => (
                "run_flash_attention: out shape {} must match token-major q {}",
                vec![Arg::First, Arg::Second],
            ),
            Refusal::FlashOutShape => (
                "run_flash_attention: out shape {} must equal q shape {}",
                vec![Arg::First, Arg::Second],
            ),
            Refusal::FlashGroups { heads, kv_heads } => (
                "run_flash_attention: H={} must be a multiple of H_kv={}",
                vec![Arg::Number(heads as u64), Arg::Number(kv_heads as u64)],
            ),
            Refusal::FlashKvLen { kv_len, t_max } => (
                "run_flash_attention: kv_len {} exceeds cache T_max {}",
                vec![Arg::Number(kv_len as u64), Arg::Number(t_max as u64)],
            ),
            Refusal::FlashF16NeedsCm2 => (
                "run_flash_attention: f16 q/out require NV_cooperative_matrix2 support, which this device lacks",
                Vec::new(),
            ),
            Refusal::FlashF16Variant { kv, dh } => (
                "run_flash_attention: f16 q/out are compiled for f16 KV caches with head dimension 64 on the CM2 route only (kv {}, dh {})",
                vec![Arg::Text(kv.name()), Arg::Number(dh as u64)],
            ),
            Refusal::FlashHeadDim { dh } => (
                "run_flash_attention: head dimension {} unsupported (compiled variants: 64, 128)",
                vec![Arg::Number(dh as u64)],
            ),
            Refusal::PackStorage { role, got } => (
                "run_prefill_qkv_pack: {} must be f16 storage, got {}",
                vec![Arg::Text(role.label()), Arg::Text(got.name())],
            ),
            Refusal::PackGeometry { heads, kv_heads, head_dim, rot_dim } => (
                "run_prefill_qkv_pack: invalid heads/kv_heads/dh/rot_dim ({}/{}/{}/{})",
                vec![Arg::Number(heads as u64), Arg::Number(kv_heads as u64), Arg::Number(head_dim as u64), Arg::Number(rot_dim as u64)],
            ),
            Refusal::PackQkvShape => (
                "run_prefill_qkv_pack: qkv must be [T, n_qkv], got {}",
                vec![Arg::First],
            ),
            Refusal::PackQkvWidth { width, want } => (
                "run_prefill_qkv_pack: qkv N {} != H*dh + 2*H_kv*dh ({})",
                vec![Arg::Number(width as u64), Arg::Number(want as u64)],
            ),
            Refusal::PackQShape { heads, tokens, head_dim } => (
                "run_prefill_qkv_pack: q must be head-major [H={}, T={}, dh={}], got {}",
                vec![Arg::Number(heads as u64), Arg::Number(tokens as u64), Arg::Number(head_dim as u64), Arg::First],
            ),
            Refusal::PackCaches { kv_heads, head_dim } => (
                "run_prefill_qkv_pack: cache shapes kt {} v {} vs H_kv={} dh={}",
                vec![Arg::First, Arg::Second, Arg::Number(kv_heads as u64), Arg::Number(head_dim as u64)],
            ),
            Refusal::PackPosition { pos_base, tokens, t_max } => (
                "run_prefill_qkv_pack: pos_base {} + T {} exceeds T_max {}",
                vec![Arg::Number(pos_base as u64), Arg::Number(tokens as u64), Arg::Number(t_max as u64)],
            ),
            Refusal::PackHeadDim { head_dim } => (
                "run_prefill_qkv_pack: head_dim {} must be a multiple of 4",
                vec![Arg::Number(head_dim as u64)],
            ),
            Refusal::ChainNoScope => (
                "gemv_chain: device lacks vulkanMemoryModelDeviceScope (required for the quorum barrier)",
                Vec::new(),
            ),
            Refusal::ChainEmpty => (
                "gemv_chain: empty job list",
                Vec::new(),
            ),
            Refusal::ChainTooLong { jobs } => (
                "gemv_chain: {} jobs exceeds max 8",
                vec![Arg::Number(jobs as u64)],
            ),
            Refusal::ChainStore { index } => (
                "gemv_chain[{}]: fused store epilogues are not supported",
                vec![Arg::Number(index as u64)],
            ),
            Refusal::ChainAccumulate { index } => (
                "gemv_chain[{}]: accumulate is not supported",
                vec![Arg::Number(index as u64)],
            ),
            Refusal::ChainActivations { index } => (
                "gemv_chain[{}]: A and C must be f32 storage",
                vec![Arg::Number(index as u64)],
            ),
            Refusal::ChainWeights { index } => (
                "gemv_chain[{}]: B must be f16 storage",
                vec![Arg::Number(index as u64)],
            ),
            Refusal::ChainPacked { index } => (
                "gemv_chain[{}]: packed-B layout is not supported",
                vec![Arg::Number(index as u64)],
            ),
            Refusal::ChainBias { index } => (
                "gemv_chain[{}]: bias epilogue is not supported",
                vec![Arg::Number(index as u64)],
            ),
            Refusal::ChainRow { index, batch, m } => (
                "gemv_chain[{}]: requires batch=1 M=1 (got B={} M={})",
                vec![Arg::Number(index as u64), Arg::Number(batch as u64), Arg::Number(m as u64)],
            ),
            Refusal::ChainRelu { index } => (
                "gemv_chain[{}]: unsupported activation Relu",
                vec![Arg::Number(index as u64)],
            ),
            Refusal::ChainGelu { index } => (
                "gemv_chain[{}]: unsupported activation Gelu",
                vec![Arg::Number(index as u64)],
            ),
            Refusal::ChainNormedAddScaled { index } => (
                "gemv_chain[{}]: NORM_A cannot combine with AddScaled",
                vec![Arg::Number(index as u64)],
            ),
            Refusal::EmptyOpList { op } => (
                "{}: empty op list",
                vec![Arg::Text(op.label())],
            ),
            Refusal::GraphDescriptors => (
                "run_exec_ops: kernel '{}' binds descriptor sets and cannot be recorded in a mixed graph (unset ML_KERNEL or pick a BDA kernel)",
                vec![Arg::Name],
            ),
            Refusal::ChainCount { jobs } => (
                "run_exec_ops: GemvChain n={} out of range",
                vec![Arg::Number(jobs as u64)],
            ),
            Refusal::PosMismatch { used, prepared } => (
                "prepare_exec_ops: op references pos_addr {} but the prepared position buffer is {} (pass the same PosBuffer)",
                vec![Arg::Hex(used), Arg::Hex(prepared)],
            ),
            Refusal::TotalFlopOverflow => (
                "total FLOP count overflows u64",
                Vec::new(),
            ),
        }
    }
}

/// A refused request: the failed check, and the shapes and the name that its
/// message quotes (empty where it quotes none).
#[derive(Debug)]
pub struct Error {
    pub refusal: Refusal,
    pub first: Vec<u32>,
    pub second: Vec<u32>,
    pub name: String,
}

/// What an [`Error`] says.
pub struct ErrorView {
    pub refusal: Refusal,
    pub first: Seq<u32>,
    pub second: Seq<u32>,
    pub name: Seq<char>,
}

impl View for Error {
    type V = ErrorView;

    open spec fn view(&self) -> ErrorView {
        ErrorView {
            refusal: self.refusal,
            first: self.first@,
            second: self.second@,
            name: self.name@,
        }
    }
}

/// A refusal that quotes neither a shape nor a name.
pub open spec fn refused(refusal: Refusal) -> ErrorView {
    ErrorView { refusal, first: Seq::empty(), second: Seq::empty(), name: Seq::empty() }
}

/// A refusal that quotes one or two shapes.
pub open spec fn refused_shapes(refusal: Refusal, first: Seq<u32>, second: Seq<u32>) -> ErrorView {
    ErrorView { refusal, first, second, name: Seq::empty() }
}

/// A refusal that quotes a name.
pub open spec fn refused_name(refusal: Refusal, name: Seq<char>) -> ErrorView {
    ErrorView { refusal, first: Seq::empty(), second: Seq::empty(), name }
}

/// A result with its error replaced by what the error says.
pub open spec fn outcome<T>(r: Result<T, Error>) -> Result<T, ErrorView> {
    match r {
        Ok(value) => Ok(value),
        Err(error) => Err(error@),
    }
}

impl ErrorView {
    /// The text that fills a place.
    pub open spec fn arg_text(self, arg: Arg) -> Seq<char> {
        match arg {
            Arg::Number(n) => decimal(n as nat),
            Arg::Hex(n) => seq!['0', 'x'] + hexadecimal(n as nat),
            Arg::Text(s) => s@,
            Arg::First => list_text(self.first),
            Arg::Second => list_text(self.second),
            Arg::Name => self.name,
        }
    }

    /// `template` with each `{}` replaced by the next of `args`.
    pub open spec fn filled(self, template: Seq<char>, args: Seq<Arg>) -> Seq<char>
        decreases template.len(),
    {
        if template.len() == 0 {
            Seq::empty()
        } else if template.len() >= 2 && template[0] == '{' && template[1] == '}' && args.len() > 0 {
            self.arg_text(args[0]) + self.filled(template.skip(2), args.skip(1))
        } else {
            seq![template[0]] + self.filled(template.skip(1), args)
        }
    }

    /// The message.
    pub open spec fn message(self) -> Seq<char> {
        self.filled(self.refusal.message_parts().0@, self.refusal.message_parts().1)
    }
}

impl Error {
    pub(crate) fn new(refusal: Refusal) -> (r: Self)
        ensures
            r@ == refused(refusal),
    {
        let r = Error { refusal, first: Vec::new(), second: Vec::new(), name: String::new() };
        assert(r.first@ =~= Seq::empty() && r.second@ =~= Seq::empty() && r.name@ =~= Seq::empty());
        r
    }

    pub(crate) fn with_shapes(refusal: Refusal, first: &[u32], second: &[u32]) -> (r: Self)
        ensures
            r@ == refused_shapes(refusal, first@, second@),
    {
        let r = Error {
            refusal,
            first: copied(first),
            second: copied(second),
            name: String::new(),
        };
        assert(r.name@ =~= Seq::empty());
        r
    }

    pub(crate) fn with_name(refusal: Refusal, name: &str) -> (r: Self)
        ensures
            r@ == refused_name(refusal, name@),
    {
        let mut text: String = String::new();
        push_text(&mut text, name);
        let r = Error { refusal, first: Vec::new(), second: Vec::new(), name: text };
        assert(r.first@ =~= Seq::empty() && r.second@ =~= Seq::empty() && r.name@ =~= name@);
        r
    }

    fn push_arg(&self, text: &mut String, arg: Arg)
        ensures
            final(text)@ == old(text)@ + self@.arg_text(arg),
    {
        match arg {
            Arg::Number(n) => push_decimal(text, n),
            Arg::Hex(n) => {
                text.push('0');
                text.push('x');
                push_hexadecimal(text, n);
                assert(text@ =~= old(text)@ + self@.arg_text(arg));
            }
            Arg::Text(s) => push_text(text, s),
            Arg::First => push_list(text, &self.first),
            Arg::Second => push_list(text, &self.second),
            Arg::Name => push_text(text, self.name.as_str()),
        }
    }

    /// The message of this error.
    pub fn to_string(&self) -> (r: String)
        ensures
            r@ == self@.message(),
    {
        let (template, args) = self.refusal.parts();
        let chars: Vec<char> = to_chars(template);
        let mut out: String = String::new();
        let mut i: usize = 0;
        let mut used: usize = 0;
        proof {
            assert(chars@.skip(0) =~= chars@);
            assert(args@.skip(0) =~= args@);
            assert(out@ + self@.message() =~= self@.message());
        }
        while i < chars.len()
            invariant
                i <= chars@.len(),
                used <= args@.len(),
                self@.message() == out@ + self@.filled(chars@.skip(i as int), args@.skip(used as int)),
            decreases chars.len() - i,
        {
            let ghost before = out@;
            let ghost rest = chars@.skip(i as int);
            let ghost left = args@.skip(used as int);
            assert(rest[0] == chars@[i as int]);
            if i + 1 < chars.len() && chars[i] == '{' && chars[i + 1] == '}' && used < args.len() {
                self.push_arg(&mut out, args[used]);
                i = i + 2;
                used = used + 1;
                proof {
                    assert(rest.skip(2) =~= chars@.skip(i as int));
                    assert(left.skip(1) =~= args@.skip(used as int));
                    assert(before + (self@.arg_text(left[0]) + self@.filled(rest.skip(2), left.skip(1)))
                        =~= out@ + self@.filled(rest.skip(2), left.skip(1)));
                }
            } else {
                out.push(chars[i]);
                i = i + 1;
                proof {
                    assert(rest.skip(1) =~= chars@.skip(i as int));
                    assert(before + (seq![rest[0]] + self@.filled(rest.skip(1), left))
                        =~= out@ + self@.filled(rest.skip(1), left));
                }
            }
        }
        assert(chars@.skip(i as int) =~= Seq::empty());
        assert(out@ =~= self@.message());
        out
    }
}

/// A vector with the items of a slice.
pub(crate) fn copied(items: &[u32]) -> (r: Vec<u32>)
    ensures
        r@ == items@,
{
    let mut r: Vec<u32> = Vec::new();
    let mut i: usize = 0;
    while i < items.len()
        invariant
            i <= items@.len(),
            r@ =~= items@.take(i as int),
        decreases items.len() - i,
    {
        r.push(items[i]);
        i = i + 1;
    }
    r
}

} // verus!
