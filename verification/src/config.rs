//! Hyperparameters of the vision transformer and the quantities derived from them.

use vstd::prelude::*;

verus! {

/// The mathematical content of a configuration: every size as an unbounded integer.
pub struct ConfigView {
    pub hidden_size: int,
    pub num_attention_heads: int,
    pub num_hidden_layers: int,
    pub intermediate_size: int,
    pub patch_size: int,
    pub image_size: int,
    pub num_channels: int,
    pub rms_norm_eps_bits: int,
    pub qkv_bias: bool,
    pub use_bias: bool,
}

/// `d` is a positive divisor of `n`.
pub open spec fn divides(d: int, n: int) -> bool {
    d > 0 && n % d == 0
}

/// Width of one attention head.
pub open spec fn head_dim_of(m: ConfigView) -> int {
    m.hidden_size / m.num_attention_heads
}

/// Number of patches along one side of the image.
pub open spec fn grid_side_of(m: ConfigView) -> int {
    m.image_size / m.patch_size
}

/// Number of patches that one image is cut into.
pub open spec fn num_patches_of(m: ConfigView) -> int {
    grid_side_of(m) * grid_side_of(m)
}

/// Number of scalars in one flattened patch, all channels together.
pub open spec fn patch_dim_of(m: ConfigView) -> int {
    m.num_channels * m.patch_size * m.patch_size
}

/// The head count divides the hidden width.
pub open spec fn heads_ok(m: ConfigView) -> bool {
    divides(m.num_attention_heads, m.hidden_size)
}

/// The patch side divides the image side.
pub open spec fn patches_ok(m: ConfigView) -> bool {
    divides(m.patch_size, m.image_size)
}

/// A flattened patch has a length that a `u64` can hold.
pub open spec fn patch_dim_ok(m: ConfigView) -> bool {
    patch_dim_of(m) <= u64::MAX
}

/// No size is negative.
pub open spec fn sizes_ok(m: ConfigView) -> bool {
    &&& m.hidden_size >= 0
    &&& m.num_attention_heads >= 0
    &&& m.num_hidden_layers >= 0
    &&& m.intermediate_size >= 0
    &&& m.patch_size >= 0
    &&& m.image_size >= 0
    &&& m.num_channels >= 0
}

/// Every size fits the 32-bit field that holds it.
pub open spec fn fits_fields(m: ConfigView) -> bool {
    &&& m.hidden_size <= u32::MAX
    &&& m.num_attention_heads <= u32::MAX
    &&& m.num_hidden_layers <= u32::MAX
    &&& m.intermediate_size <= u32::MAX
    &&& m.patch_size <= u32::MAX
    &&& m.image_size <= u32::MAX
    &&& m.num_channels <= u32::MAX
}

/// What every configuration satisfies.
pub open spec fn valid_config(m: ConfigView) -> bool {
    sizes_ok(m) && heads_ok(m) && patches_ok(m) && patch_dim_ok(m)
}

/// Why a set of hyperparameters is refused.
#[derive(Clone, Copy, Debug, PartialEq, Eq)]
pub enum ConfigError {
    /// The head count is zero or does not divide the hidden width.
    HeadsDoNotDivideHidden,
    /// The patch side is zero or does not divide the image side.
    PatchDoesNotDivideImage,
    /// A flattened patch would have more scalars than a `u64` can count.
    PatchTooLarge,
}

/// The error owed to hyperparameters that are not valid: the first rule they break.
pub open spec fn first_violation(m: ConfigView) -> ConfigError {
    if !heads_ok(m) {
        ConfigError::HeadsDoNotDivideHidden
    } else if !patches_ok(m) {
        ConfigError::PatchDoesNotDivideImage
    } else {
        ConfigError::PatchTooLarge
    }
}

/// An immutable, validated bundle of hyperparameters.
///
/// The normalization epsilon is carried as the bit pattern of a 64-bit IEEE 754 number.
#[derive(Clone, Copy, Debug)]
pub struct AIMv2Config {
    hidden_size: u32,
    num_attention_heads: u32,
    num_hidden_layers: u32,
    intermediate_size: u32,
    patch_size: u32,
    image_size: u32,
    num_channels: u32,
    rms_norm_eps_bits: u64,
    qkv_bias: bool,
    use_bias: bool,
}

impl View for AIMv2Config {
    type V = ConfigView;

    closed spec fn view(&self) -> ConfigView {
        ConfigView {
            hidden_size: self.hidden_size as int,
            num_attention_heads: self.num_attention_heads as int,
            num_hidden_layers: self.num_hidden_layers as int,
            intermediate_size: self.intermediate_size as int,
            patch_size: self.patch_size as int,
            image_size: self.image_size as int,
            num_channels: self.num_channels as int,
            rms_norm_eps_bits: self.rms_norm_eps_bits as int,
            qkv_bias: self.qkv_bias,
            use_bias: self.use_bias,
        }
    }
}

/// The mathematical content of ten explicit fields.
pub open spec fn view_of_fields(
    hidden_size: u32,
    num_attention_heads: u32,
    num_hidden_layers: u32,
    intermediate_size: u32,
    patch_size: u32,
    image_size: u32,
    num_channels: u32,
    rms_norm_eps_bits: u64,
    qkv_bias: bool,
    use_bias: bool,
) -> ConfigView {
    ConfigView {
        hidden_size: hidden_size as int,
        num_attention_heads: num_attention_heads as int,
        num_hidden_layers: num_hidden_layers as int,
        intermediate_size: intermediate_size as int,
        patch_size: patch_size as int,
        image_size: image_size as int,
        num_channels: num_channels as int,
        rms_norm_eps_bits: rms_norm_eps_bits as int,
        qkv_bias,
        use_bias,
    }
}

/// The hyperparameters of the large model with 14-pixel patches on 224-pixel images.
pub open spec fn large_patch14_view() -> ConfigView {
    ConfigView {
        hidden_size: 1024,
        num_attention_heads: 8,
        num_hidden_layers: 24,
        intermediate_size: 2816,
        patch_size: 14,
        image_size: 224,
        num_channels: 3,
        rms_norm_eps_bits: 0x3EE4_F8B5_88E3_68F1,
        qkv_bias: false,
        use_bias: false,
    }
}

/// Whether `c * p * p` fits in a `u64`.
fn patch_dim_fits(num_channels: u32, patch_size: u32) -> (fits: bool)
    ensures
        fits == (num_channels * patch_size * patch_size <= u64::MAX),
{
    let area: u64 = square(patch_size);
    if num_channels == 0 || area == 0 {
        assert(num_channels * patch_size * patch_size == 0) by (nonlinear_arith)
            requires
                num_channels == 0 || patch_size * patch_size == 0,
        ;
        true
    } else {
        let limit: u64 = u64::MAX / area;
        let c: u64 = num_channels as u64;
        assert((c <= limit) == (c * area <= u64::MAX)) by (nonlinear_arith)
            requires
                area > 0,
                limit == u64::MAX / area,
        ;
        assert(num_channels * patch_size * patch_size == c * area) by (nonlinear_arith)
            requires
                c == num_channels,
                area == patch_size * patch_size,
        ;
        c <= limit
    }
}

/// The square of a 32-bit number, which always fits in 64 bits.
fn square(x: u32) -> (r: u64)
    ensures
        r == x * x,
{
    assert(x * x <= 0xFFFF_FFFF * 0xFFFF_FFFF) by (nonlinear_arith)
        requires
            0 <= x <= 0xFFFF_FFFF,
    ;
    let wide: u64 = x as u64;
    wide * wide
}

impl AIMv2Config {
    /// Every value of this type is valid.
    #[verifier::type_invariant]
    pub open spec fn inv(&self) -> bool {
        valid_config(self@) && fits_fields(self@)
    }

    /// Builds a configuration from explicit fields, or says which rule they break.
    pub fn new(
        hidden_size: u32,
        num_attention_heads: u32,
        num_hidden_layers: u32,
        intermediate_size: u32,
        patch_size: u32,
        image_size: u32,
        num_channels: u32,
        rms_norm_eps_bits: u64,
        qkv_bias: bool,
        use_bias: bool,
    ) -> (built: Result<AIMv2Config, ConfigError>)
        ensures
            ({
                let m = view_of_fields(
                    hidden_size,
                    num_attention_heads,
                    num_hidden_layers,
                    intermediate_size,
                    patch_size,
                    image_size,
                    num_channels,
                    rms_norm_eps_bits,
                    qkv_bias,
                    use_bias,
                );
                match built {
                    Ok(c) => valid_config(m) && c@ == m,
                    Err(e) => !valid_config(m) && e == first_violation(m),
                }
            }),
    {
        if num_attention_heads == 0 || hidden_size % num_attention_heads != 0 {
            return Err(ConfigError::HeadsDoNotDivideHidden);
        }
        if patch_size == 0 || image_size % patch_size != 0 {
            return Err(ConfigError::PatchDoesNotDivideImage);
        }
        if !patch_dim_fits(num_channels, patch_size) {
            return Err(ConfigError::PatchTooLarge);
        }
        Ok(
            AIMv2Config {
                hidden_size,
                num_attention_heads,
                num_hidden_layers,
                intermediate_size,
                patch_size,
                image_size,
                num_channels,
                rms_norm_eps_bits,
                qkv_bias,
                use_bias,
            },
        )
    }

    /// The preset of the large model with 14-pixel patches on 224-pixel images.
    pub fn aimv2_large_patch14() -> (c: AIMv2Config)
        ensures
            c@ == large_patch14_view(),
            valid_config(c@),
    {
        AIMv2Config {
            hidden_size: 1024,
            num_attention_heads: 8,
            num_hidden_layers: 24,
            intermediate_size: 2816,
            patch_size: 14,
            image_size: 224,
            num_channels: 3,
            rms_norm_eps_bits: 0x3EE4_F8B5_88E3_68F1,
            qkv_bias: false,
            use_bias: false,
        }
    }

    /// Width of the token embeddings.
    pub fn hidden_size(&self) -> (r: u32)
        ensures
            r == self@.hidden_size,
    {
        self.hidden_size
    }

    /// Number of attention heads.
    pub fn num_attention_heads(&self) -> (r: u32)
        ensures
            r == self@.num_attention_heads,
            r > 0,
    {
        proof {
            use_type_invariant(self);
        }
        self.num_attention_heads
    }

    /// Number of transformer blocks in the trunk.
    pub fn num_hidden_layers(&self) -> (r: u32)
        ensures
            r == self@.num_hidden_layers,
    {
        self.num_hidden_layers
    }

    /// Hidden width of the feed-forward layers.
    pub fn intermediate_size(&self) -> (r: u32)
        ensures
            r == self@.intermediate_size,
    {
        self.intermediate_size
    }

    /// Side of one square patch, in pixels.
    pub fn patch_size(&self) -> (r: u32)
        ensures
            r == self@.patch_size,
            r > 0,
    {
        proof {
            use_type_invariant(self);
        }
        self.patch_size
    }

    /// Side of the square input image, in pixels.
    pub fn image_size(&self) -> (r: u32)
        ensures
            r == self@.image_size,
    {
        self.image_size
    }

    /// Number of colour channels of the input image.
    pub fn num_channels(&self) -> (r: u32)
        ensures
            r == self@.num_channels,
    {
        self.num_channels
    }

    /// Bit pattern of the 64-bit IEEE 754 number added under the square root of the norm.
    pub fn rms_norm_eps_bits(&self) -> (r: u64)
        ensures
            r == self@.rms_norm_eps_bits,
    {
        self.rms_norm_eps_bits
    }

    /// Whether the query, key and value projections carry a bias.
    pub fn qkv_bias(&self) -> (r: bool)
        ensures
            r == self@.qkv_bias,
    {
        self.qkv_bias
    }

    /// Whether the remaining projections carry a bias.
    pub fn use_bias(&self) -> (r: bool)
        ensures
            r == self@.use_bias,
    {
        self.use_bias
    }

    /// Width of one attention head: the hidden width shared out evenly among the heads.
    pub fn head_dim(&self) -> (r: u32)
        ensures
            r == head_dim_of(self@),
            r * self@.num_attention_heads == self@.hidden_size,
    {
        proof {
            use_type_invariant(self);
            lemma_heads_tile_hidden(self@);
        }
        self.hidden_size / self.num_attention_heads
    }

    /// Number of patches along one side of the image.
    pub fn grid_side(&self) -> (r: u32)
        ensures
            r == grid_side_of(self@),
            r * self@.patch_size == self@.image_size,
    {
        proof {
            use_type_invariant(self);
            lemma_patches_tile_image(self@);
        }
        self.image_size / self.patch_size
    }

    /// Number of patches that one image is cut into.
    pub fn num_patches(&self) -> (r: u64)
        ensures
            r == num_patches_of(self@),
    {
        square(self.grid_side())
    }

    /// Number of scalars in one flattened patch, all channels together.
    pub fn patch_dim(&self) -> (r: u64)
        ensures
            r == patch_dim_of(self@),
    {
        proof {
            use_type_invariant(self);
        }
        let area: u64 = square(self.patch_size);
        let c: u64 = self.num_channels as u64;
        assert(c * area == self@.num_channels * self@.patch_size * self@.patch_size)
            by (nonlinear_arith)
            requires
                c == self@.num_channels,
                area == self@.patch_size * self@.patch_size,
        ;
        c * area
    }
}

/// In a valid configuration the heads tile the hidden width exactly: no channel is left over
/// and none is shared.
pub proof fn lemma_heads_tile_hidden(m: ConfigView)
    requires
        valid_config(m),
    ensures
        m.hidden_size % m.num_attention_heads == 0,
        head_dim_of(m) * m.num_attention_heads == m.hidden_size,
{
    vstd::arithmetic::div_mod::lemma_fundamental_div_mod(m.hidden_size, m.num_attention_heads);
    assert(m.num_attention_heads * head_dim_of(m) == head_dim_of(m) * m.num_attention_heads)
        by (nonlinear_arith);
}

/// In a valid configuration the patches tile the image side exactly.
pub proof fn lemma_patches_tile_image(m: ConfigView)
    requires
        valid_config(m),
    ensures
        m.image_size % m.patch_size == 0,
        grid_side_of(m) * m.patch_size == m.image_size,
{
    vstd::arithmetic::div_mod::lemma_fundamental_div_mod(m.image_size, m.patch_size);
    assert(m.patch_size * grid_side_of(m) == grid_side_of(m) * m.patch_size)
        by (nonlinear_arith);
}

} // verus!
