//! The AV1 sequence header of an elementary stream.
//!
//! The stream is a run of Open Bitstream Units. [`parse_obu`] walks their headers up to the
//! first sequence header and reads it bit by bit. The bit layout is stated by the
//! `*_layout` and `*_end` functions: each gives the fields of one part of the header and the
//! bit position at which the part ends, as a function of the bytes alone.

use vstd::prelude::*;
use vstd::slice::slice_subrange;
use crate::bits::BitCursor;
use crate::bits::bits_fit;
use crate::bits::bits_value;
use crate::bits::flag_at;
use crate::bits::lemma_bits_value_small;
use crate::bits::MAX_BIT_BUFFER;
use crate::error::Error;

verus! {

/// Value of a forced-tool selector that leaves the choice to each frame.
pub const SELECT_SCREEN_CONTENT_TOOLS: u8 = 2;

/// Value of the integer motion vector selector that leaves the choice to each frame.
pub const SELECT_INTEGER_MV: u8 = 2;

/// The colour description of a sequence.
#[derive(Debug, Clone)]
pub struct ColorConfig {
    pub subsampling_x: u8,
    pub subsampling_y: u8,
    pub chroma_sample_position: u8,
    pub separate_uv_delta_q: bool,
    pub color_range: u8,
    pub bit_depth: u8,
    pub mono_chrome: bool,
    pub color_primaries: u8,
    pub transfer_characteristics: u8,
    pub matrix_coefficients: u8,
}

/// The coding tools that a sequence switches on, read only for full (not reduced) headers.
#[derive(Debug, Clone)]
pub struct ToolFlags {
    pub enable_interintra_compound: bool,
    pub enable_masked_compound: bool,
    pub enable_warped_motion: bool,
    pub enable_dual_filter: bool,
    pub enable_order_hint: bool,
    pub enable_jnt_comp: bool,
    pub enable_ref_frame_mvs: bool,
    pub seq_force_screen_content_tools: u8,
    pub seq_force_integer_mv: u8,
    pub order_hint_bits: u8,
}

/// A parsed sequence header.
#[derive(Debug, Clone)]
pub struct SequenceHeaderObu {
    pub color: ColorConfig,
    pub seq_profile: u8,
    pub still_picture: bool,
    pub reduced_still_picture_header: bool,
    pub max_frame_width: u32,
    pub max_frame_height: u32,
    pub enable_superres: bool,
    pub enable_cdef: bool,
    pub enable_restoration: bool,
    pub frame_id_numbers_present_flag: bool,
    pub delta_frame_id_length: u8,
    pub additional_frame_id_length: u8,
    pub film_grain_params_present: bool,
    pub decoder_model_info_present_flag: bool,
    pub seq_force_screen_content_tools: u8,
    pub seq_force_integer_mv: u8,
    pub order_hint_bits: u8,
    pub enable_order_hint: bool,
    pub use_128x128_superblock: bool,
    pub enable_interintra_compound: bool,
    pub enable_masked_compound: bool,
    pub enable_warped_motion: bool,
    pub enable_dual_filter: bool,
    pub enable_jnt_comp: bool,
    pub enable_ref_frame_mvs: bool,
}

/// What an OBU header says of its unit.
#[derive(Debug, Clone, Copy)]
pub struct Header {
    pub obu_size: usize,
    pub is_sequence_header: bool,
}

// ---------------------------------------------------------------------------------------
// The bit layout
// ---------------------------------------------------------------------------------------
/// The bit position after one operating point that starts at `pos`: a 12-bit idc, a 5-bit
/// level, a tier bit for levels above 7, and, where display delays are announced, a flag
/// followed by a 4-bit delay when set.
pub open spec fn operating_point_end(data: Seq<u8>, pos: int, delay_present: bool) -> int {
    let after_level = if bits_value(data, pos + 12, 5) > 7 {
        pos + 18
    } else {
        pos + 17
    };
    if delay_present {
        if flag_at(data, after_level) {
            after_level + 5
        } else {
            after_level + 1
        }
    } else {
        after_level
    }
}

/// The bit position after `count` operating points, the first of which starts at `pos`.
pub open spec fn operating_points_end(
    data: Seq<u8>,
    pos: int,
    count: int,
    delay_present: bool,
) -> int
    decreases count,
{
    if count <= 0 {
        pos
    } else {
        operating_point_end(
            data,
            operating_points_end(data, pos, count - 1, delay_present),
            delay_present,
        )
    }
}

/// The bit position at which the frame size fields start. A reduced header holds only a
/// 5-bit level after its first five bits; a full header holds the timing flag, the display
/// delay flag, a 5-bit count (less one) and that many operating points.
pub open spec fn frame_size_start(data: Seq<u8>, reduced: bool) -> int {
    if reduced {
        10
    } else {
        operating_points_end(data, 12, 1 + bits_value(data, 7, 5), flag_at(data, 6))
    }
}

/// The maximum frame width and height and the end of the frame size fields that start at
/// `pos`: two 4-bit widths (less one), then the two dimensions (less one) in those widths.
#[verifier::opaque]
pub open spec fn frame_size_layout(data: Seq<u8>, pos: int) -> (u32, u32, int) {
    let width_bits = 1 + bits_value(data, pos, 4);
    let height_bits = 1 + bits_value(data, pos + 4, 4);
    (
        (1 + bits_value(data, pos + 8, width_bits)) as u32,
        (1 + bits_value(data, pos + 8 + width_bits, height_bits)) as u32,
        pos + 8 + width_bits + height_bits,
    )
}

/// Whether frame ids are present, the two id lengths, and the end of the frame id fields
/// that start at `pos`. A reduced header has none.
#[verifier::opaque]
pub open spec fn frame_ids_layout(data: Seq<u8>, pos: int, reduced: bool) -> (bool, u8, u8, int) {
    if reduced {
        (false, 0, 0, pos)
    } else if flag_at(data, pos) {
        (
            true,
            (2 + bits_value(data, pos + 1, 4)) as u8,
            (1 + bits_value(data, pos + 5, 3)) as u8,
            pos + 8,
        )
    } else {
        (false, 0, 0, pos + 1)
    }
}

/// The forced screen content and integer motion vector selectors and the end of their
/// fields, which start at `pos`. Each selector is either left to the frames (one set bit) or
/// given by a second bit; the motion vector selector is absent, and left to the frames, when
/// screen content tools are forced off.
pub open spec fn selectors_layout(data: Seq<u8>, pos: int) -> (u8, u8, int) {
    let choose_screen = flag_at(data, pos);
    let force_screen = if choose_screen {
        SELECT_SCREEN_CONTENT_TOOLS
    } else {
        bits_value(data, pos + 1, 1) as u8
    };
    let p_mv = if choose_screen {
        pos + 1
    } else {
        pos + 2
    };
    if force_screen == 0 {
        (force_screen, SELECT_INTEGER_MV, p_mv)
    } else if flag_at(data, p_mv) {
        (force_screen, SELECT_INTEGER_MV, p_mv + 1)
    } else {
        (force_screen, bits_value(data, p_mv + 1, 1) as u8, p_mv + 2)
    }
}

/// The tool flags and the end of the tool fields that start at `pos`. A reduced header has
/// none, and its selectors leave the choice to each frame.
#[verifier::opaque]
pub open spec fn tools_layout(data: Seq<u8>, pos: int, reduced: bool) -> (ToolFlags, int) {
    if reduced {
        (
            ToolFlags {
                enable_interintra_compound: false,
                enable_masked_compound: false,
                enable_warped_motion: false,
                enable_dual_filter: false,
                enable_order_hint: false,
                enable_jnt_comp: false,
                enable_ref_frame_mvs: false,
                seq_force_screen_content_tools: SELECT_SCREEN_CONTENT_TOOLS,
                seq_force_integer_mv: SELECT_INTEGER_MV,
                order_hint_bits: 0,
            },
            pos,
        )
    } else {
        let order_hint = flag_at(data, pos + 4);
        let (force_screen, force_mv, p_hint) = selectors_layout(
            data,
            if order_hint {
                pos + 7
            } else {
                pos + 5
            },
        );
        (
            ToolFlags {
                enable_interintra_compound: flag_at(data, pos),
                enable_masked_compound: flag_at(data, pos + 1),
                enable_warped_motion: flag_at(data, pos + 2),
                enable_dual_filter: flag_at(data, pos + 3),
                enable_order_hint: order_hint,
                enable_jnt_comp: order_hint && flag_at(data, pos + 5),
                enable_ref_frame_mvs: order_hint && flag_at(data, pos + 6),
                seq_force_screen_content_tools: force_screen,
                seq_force_integer_mv: force_mv,
                order_hint_bits: if order_hint {
                    (1 + bits_value(data, p_hint, 3)) as u8
                } else {
                    0
                },
            },
            if order_hint {
                p_hint + 3
            } else {
                p_hint
            },
        )
    }
}

/// The chroma subsampling pair of a colour image that is neither monochrome nor sRGB, and
/// the end of its fields, which start at `pos`: 4:2:0 for profile 0, 4:4:4 for profile 1,
/// explicit flags for 12-bit streams of other profiles, 4:2:2 otherwise.
pub open spec fn subsampling_layout(data: Seq<u8>, pos: int, seq_profile: u8, bit_depth: u8) -> (
    u8,
    u8,
    int,
) {
    if seq_profile == 0 {
        (1, 1, pos)
    } else if seq_profile == 1 {
        (0, 0, pos)
    } else if bit_depth == 12 {
        let x = bits_value(data, pos, 1) as u8;
        if x != 0 {
            (x, bits_value(data, pos + 1, 1) as u8, pos + 2)
        } else {
            (0, 0, pos + 1)
        }
    } else {
        (1, 0, pos)
    }
}

/// The bit depth, the monochrome flag and the end of their fields, which start at `pos`: a
/// high bit depth flag, a twelve-bit flag for deep streams of profile 2, and a monochrome
/// flag except for profile 1.
pub open spec fn depth_layout(data: Seq<u8>, pos: int, seq_profile: u8) -> (u8, bool, int) {
    let high_bitdepth = flag_at(data, pos);
    let deep = seq_profile == 2 && high_bitdepth;
    let bit_depth: u8 = if deep && flag_at(data, pos + 1) {
        12
    } else if high_bitdepth {
        10
    } else {
        8
    };
    let p_mono = if deep {
        pos + 2
    } else {
        pos + 1
    };
    if seq_profile == 1 {
        (bit_depth, false, p_mono)
    } else {
        (bit_depth, flag_at(data, p_mono), p_mono + 1)
    }
}

/// The colour primaries, transfer characteristics and matrix coefficients, and the end of
/// their fields, which start at `pos`: a flag, then three bytes when it is set; all three are
/// 2 ("unspecified") when it is not.
pub open spec fn description_layout(data: Seq<u8>, pos: int) -> (u8, u8, u8, int) {
    if flag_at(data, pos) {
        (
            bits_value(data, pos + 1, 8) as u8,
            bits_value(data, pos + 9, 8) as u8,
            bits_value(data, pos + 17, 8) as u8,
            pos + 25,
        )
    } else {
        (2, 2, 2, pos + 1)
    }
}

/// The colour range, the subsampling pair, the chroma sample position, the separate delta
/// flag, and the end of their fields, which start at `pos`. A monochrome image has only a
/// range; sRGB (primaries 1, transfer 13, matrix 0) has no fields and full range.
pub open spec fn chroma_layout(
    data: Seq<u8>,
    pos: int,
    seq_profile: u8,
    bit_depth: u8,
    mono_chrome: bool,
    srgb: bool,
) -> (u8, u8, u8, u8, bool, int) {
    if mono_chrome {
        (bits_value(data, pos, 1) as u8, 0, 0, 0, false, pos + 1)
    } else if srgb {
        (1, 0, 0, 0, false, pos)
    } else {
        let (x, y, p_position) = subsampling_layout(data, pos + 1, seq_profile, bit_depth);
        if x != 0 && y != 0 {
            (
                bits_value(data, pos, 1) as u8,
                x,
                y,
                bits_value(data, p_position, 2) as u8,
                flag_at(data, p_position + 2),
                p_position + 3,
            )
        } else {
            (bits_value(data, pos, 1) as u8, x, y, 0, flag_at(data, p_position), p_position + 1)
        }
    }
}

/// The colour description and the end of its fields, which start at `pos`.
#[verifier::opaque]
pub open spec fn color_layout(data: Seq<u8>, pos: int, seq_profile: u8) -> (ColorConfig, int) {
    let (bit_depth, mono_chrome, p_described) = depth_layout(data, pos, seq_profile);
    let (color_primaries, transfer_characteristics, matrix_coefficients, p_range) =
        description_layout(data, p_described);
    let (
        color_range,
        subsampling_x,
        subsampling_y,
        chroma_sample_position,
        separate_uv_delta_q,
        end,
    ) = chroma_layout(
        data,
        p_range,
        seq_profile,
        bit_depth,
        mono_chrome,
        color_primaries == 1 && transfer_characteristics == 13 && matrix_coefficients == 0,
    );
    (
        ColorConfig {
            subsampling_x,
            subsampling_y,
            chroma_sample_position,
            separate_uv_delta_q,
            color_range,
            bit_depth,
            mono_chrome,
            color_primaries,
            transfer_characteristics,
            matrix_coefficients,
        },
        end,
    )
}

/// The frame dimensions, the frame id fields and the superblock flag, and the end of this
/// part, which starts at `pos` and closes with the superblock flag and two filter flags.
#[verifier::opaque]
pub open spec fn geometry_layout(data: Seq<u8>, pos: int, reduced: bool) -> (
    (u32, u32, bool, u8, u8, bool),
    int,
) {
    let (max_frame_width, max_frame_height, p_ids) = frame_size_layout(data, pos);
    let (ids_present, delta_length, additional_length, p_block) = frame_ids_layout(
        data,
        p_ids,
        reduced,
    );
    (
        (
            max_frame_width,
            max_frame_height,
            ids_present,
            delta_length,
            additional_length,
            flag_at(data, p_block),
        ),
        p_block + 3,
    )
}

/// The tool flags, the three filter flags, the colour description and the film grain flag,
/// and the end of this part, which starts at `pos` and is the last of the header.
#[verifier::opaque]
pub open spec fn coding_layout(data: Seq<u8>, pos: int, seq_profile: u8, reduced: bool) -> (
    (ToolFlags, bool, bool, bool, ColorConfig, bool),
    int,
) {
    let (tools, p_filters) = tools_layout(data, pos, reduced);
    let (color, p_grain) = color_layout(data, p_filters + 3, seq_profile);
    (
        (
            tools,
            flag_at(data, p_filters),
            flag_at(data, p_filters + 1),
            flag_at(data, p_filters + 2),
            color,
            flag_at(data, p_grain),
        ),
        p_grain + 1,
    )
}

/// The fields of a sequence header and the bit position at which it ends, given its first
/// five bits and the position `pos` at which its frame size fields start.
pub open spec fn sequence_body_layout(
    data: Seq<u8>,
    pos: int,
    seq_profile: u8,
    still_picture: bool,
    reduced: bool,
) -> (SequenceHeaderObu, int) {
    let (geometry, p_tools) = geometry_layout(data, pos, reduced);
    let (coding, end) = coding_layout(data, p_tools, seq_profile, reduced);
    (
        SequenceHeaderObu {
            color: coding.4,
            seq_profile,
            still_picture,
            reduced_still_picture_header: reduced,
            max_frame_width: geometry.0,
            max_frame_height: geometry.1,
            enable_superres: coding.1,
            enable_cdef: coding.2,
            enable_restoration: coding.3,
            frame_id_numbers_present_flag: geometry.2,
            delta_frame_id_length: geometry.3,
            additional_frame_id_length: geometry.4,
            film_grain_params_present: coding.5,
            decoder_model_info_present_flag: false,
            seq_force_screen_content_tools: coding.0.seq_force_screen_content_tools,
            seq_force_integer_mv: coding.0.seq_force_integer_mv,
            order_hint_bits: coding.0.order_hint_bits,
            enable_order_hint: coding.0.enable_order_hint,
            use_128x128_superblock: geometry.5,
            enable_interintra_compound: coding.0.enable_interintra_compound,
            enable_masked_compound: coding.0.enable_masked_compound,
            enable_warped_motion: coding.0.enable_warped_motion,
            enable_dual_filter: coding.0.enable_dual_filter,
            enable_jnt_comp: coding.0.enable_jnt_comp,
            enable_ref_frame_mvs: coding.0.enable_ref_frame_mvs,
        },
        end,
    )
}

/// The fields of a sequence header and the bit position at which it ends, for headers that
/// pass the checks of [`spec_sequence_header`]: a 3-bit profile, the still picture flag and
/// the reduced header flag come first.
pub open spec fn sequence_header_layout(data: Seq<u8>) -> (SequenceHeaderObu, int) {
    sequence_body_layout(
        data,
        frame_size_start(data, flag_at(data, 4)),
        bits_value(data, 0, 3) as u8,
        flag_at(data, 3),
        flag_at(data, 4),
    )
}

/// What reading `data` as a sequence header gives. The profile is a 3-bit number that must
/// be 0, 1 or 2; a full header that announces timing information is not supported; a header
/// that ends before its last field is truncated.
pub open spec fn spec_sequence_header(data: Seq<u8>) -> Result<SequenceHeaderObu, Error> {
    let reduced = flag_at(data, 4);
    if data.len() > MAX_BIT_BUFFER {
        Err(Error::oversized_buffer())
    } else if !bits_fit(data, 3) {
        Err(Error::truncated_bits())
    } else if bits_value(data, 0, 3) > 2 {
        Err(Error::InvalidData("seq_profile"))
    } else if !bits_fit(data, 5) {
        Err(Error::truncated_bits())
    } else if !reduced && !bits_fit(data, 6) {
        Err(Error::truncated_bits())
    } else if !reduced && flag_at(data, 5) {
        Err(Error::Unsupported("timing_info_present_flag"))
    } else if !bits_fit(data, sequence_header_layout(data).1) {
        Err(Error::truncated_bits())
    } else {
        Ok(sequence_header_layout(data).0)
    }
}

// ---------------------------------------------------------------------------------------
// Reading
// ---------------------------------------------------------------------------------------
/// Operating points only move the position forward.
pub proof fn lemma_operating_points_grow(
    data: Seq<u8>,
    pos: int,
    few: int,
    many: int,
    delay_present: bool,
)
    requires
        0 <= few <= many,
    ensures
        pos <= operating_points_end(data, pos, few, delay_present) <= operating_points_end(
            data,
            pos,
            many,
            delay_present,
        ),
    decreases many,
{
    if few < many {
        lemma_operating_points_grow(data, pos, few, many - 1, delay_present);
    } else if few > 0 {
        lemma_operating_points_grow(data, pos, few - 1, many - 1, delay_present);
    }
}

/// Reads the part between the first five bits and the frame size.
#[verifier::loop_isolation(false)]
fn read_operating_parameters(b: &mut BitCursor, reduced: bool) -> (r: Result<(), Error>)
    requires
        old(b).wf(),
        old(b).position() == 5,
        bits_fit(old(b).bytes(), 5),
    ensures
        final(b).wf(),
        final(b).bytes() == old(b).bytes(),
        match r {
            Ok(_) => {
                &&& final(b).position() == frame_size_start(old(b).bytes(), reduced)
                &&& bits_fit(old(b).bytes(), final(b).position())
                &&& reduced || !flag_at(old(b).bytes(), 5)
            },
            Err(e) => if !reduced && !bits_fit(old(b).bytes(), 6) {
                e == Error::truncated_bits()
            } else if !reduced && flag_at(old(b).bytes(), 5) {
                e == Error::Unsupported("timing_info_present_flag")
            } else {
                &&& e == Error::truncated_bits()
                &&& !bits_fit(old(b).bytes(), frame_size_start(old(b).bytes(), reduced))
            },
        },
{
    let ghost data = b.bytes();
    if reduced {
        let _seq_level_idx = b.read_u8(5)?;
        return Ok(());
    }
    let timing_info_present_flag = b.read_bool()?;
    if timing_info_present_flag {
        return Err(Error::Unsupported("timing_info_present_flag"));
    }
    proof {
        lemma_bits_value_small(data, 7, 5);
        lemma_operating_points_grow(
            data,
            12,
            0,
            1 + bits_value(data, 7, 5),
            flag_at(data, 6),
        );
    }
    let initial_display_delay_present_flag = b.read_bool()?;
    let operating_points_cnt: u8 = 1 + b.read_u8(5)?;
    let mut i: u8 = 0;
    while i < operating_points_cnt
        invariant
            i <= operating_points_cnt,
            operating_points_cnt == 1 + bits_value(data, 7, 5),
            initial_display_delay_present_flag == flag_at(data, 6),
            b.wf(),
            b.bytes() == data,
            b.position() == operating_points_end(
                data,
                12,
                i as int,
                initial_display_delay_present_flag,
            ),
        decreases operating_points_cnt - i,
    {
        proof {
            lemma_operating_points_grow(
                data,
                12,
                i + 1,
                operating_points_cnt as int,
                initial_display_delay_present_flag,
            );
            lemma_bits_value_small(data, b.position() + 12, 5);
        }
        let _operating_point_idc = b.read_u16(12)?;
        let seq_level_idx = b.read_u8(5)?;
        if seq_level_idx > 7 {
            let _seq_tier = b.read_bool()?;
        }
        if initial_display_delay_present_flag {
            let initial_display_delay_present_for_this_op = b.read_bool()?;
            if initial_display_delay_present_for_this_op {
                let _initial_display_delay = b.read_u8(4)?;
            }
        }
        i = i + 1;
    }
    Ok(())
}

/// Reads the maximum frame width and height.
fn read_frame_size(b: &mut BitCursor) -> (r: Result<(u32, u32), Error>)
    requires
        old(b).wf(),
    ensures
        final(b).wf(),
        final(b).bytes() == old(b).bytes(),
        match r {
            Ok((width, height)) => {
                &&& (width, height, final(b).position()) == frame_size_layout(
                    old(b).bytes(),
                    old(b).position(),
                )
                &&& bits_fit(old(b).bytes(), final(b).position())
                &&& 1 <= width <= 65536
                &&& 1 <= height <= 65536
            },
            Err(e) => {
                &&& e == Error::truncated_bits()
                &&& !bits_fit(
                    old(b).bytes(),
                    frame_size_layout(old(b).bytes(), old(b).position()).2,
                )
            },
        },
{
    let ghost data = b.bytes();
    let ghost pos = b.position();
    proof {
        reveal(frame_size_layout);
        lemma_bits_value_small(data, pos, 4);
        lemma_bits_value_small(data, pos + 4, 4);
        lemma_bits_value_small(data, pos + 8, 1 + bits_value(data, pos, 4));
        lemma_bits_value_small(
            data,
            pos + 9 + bits_value(data, pos, 4),
            1 + bits_value(data, pos + 4, 4),
        );
    }
    let frame_width_bits: u8 = 1 + b.read_u8(4)?;
    let frame_height_bits: u8 = 1 + b.read_u8(4)?;
    let max_frame_width: u32 = 1 + b.read_u32(frame_width_bits)?;
    let max_frame_height: u32 = 1 + b.read_u32(frame_height_bits)?;
    Ok((max_frame_width, max_frame_height))
}

/// Reads the frame id fields of a full header.
fn read_frame_ids(b: &mut BitCursor, reduced: bool) -> (r: Result<(bool, u8, u8), Error>)
    requires
        old(b).wf(),
    ensures
        final(b).wf(),
        final(b).bytes() == old(b).bytes(),
        match r {
            Ok((present, delta, additional)) => {
                &&& (present, delta, additional, final(b).position()) == frame_ids_layout(
                    old(b).bytes(),
                    old(b).position(),
                    reduced,
                )
                &&& bits_fit(old(b).bytes(), final(b).position())
            },
            Err(e) => {
                &&& e == Error::truncated_bits()
                &&& !bits_fit(
                    old(b).bytes(),
                    frame_ids_layout(old(b).bytes(), old(b).position(), reduced).3,
                )
            },
        },
{
    let ghost data = b.bytes();
    let ghost pos = b.position();
    proof {
        reveal(frame_ids_layout);
        lemma_bits_value_small(data, pos + 1, 4);
        lemma_bits_value_small(data, pos + 5, 3);
    }
    let frame_id_numbers_present_flag = if reduced {
        false
    } else {
        b.read_bool()?
    };
    let delta_frame_id_length: u8 = if frame_id_numbers_present_flag {
        2 + b.read_u8(4)?
    } else {
        0
    };
    let additional_frame_id_length: u8 = if frame_id_numbers_present_flag {
        1 + b.read_u8(3)?
    } else {
        0
    };
    Ok((frame_id_numbers_present_flag, delta_frame_id_length, additional_frame_id_length))
}

/// Reads the forced screen content and integer motion vector selectors.
fn read_selectors(b: &mut BitCursor) -> (r: Result<(u8, u8), Error>)
    requires
        old(b).wf(),
    ensures
        final(b).wf(),
        final(b).bytes() == old(b).bytes(),
        match r {
            Ok((screen, mv)) => {
                &&& (screen, mv, final(b).position()) == selectors_layout(
                    old(b).bytes(),
                    old(b).position(),
                )
                &&& bits_fit(old(b).bytes(), final(b).position())
            },
            Err(e) => {
                &&& e == Error::truncated_bits()
                &&& !bits_fit(
                    old(b).bytes(),
                    selectors_layout(old(b).bytes(), old(b).position()).2,
                )
            },
        },
{
    let mut seq_force_screen_content_tools = SELECT_SCREEN_CONTENT_TOOLS;
    let mut seq_force_integer_mv = SELECT_INTEGER_MV;
    let seq_choose_screen_content_tools = b.read_bool()?;
    if !seq_choose_screen_content_tools {
        seq_force_screen_content_tools = b.read_u8(1)?;
    }
    if seq_force_screen_content_tools > 0 {
        let seq_choose_integer_mv = b.read_bool()?;
        if !seq_choose_integer_mv {
            seq_force_integer_mv = b.read_u8(1)?;
        }
    }
    Ok((seq_force_screen_content_tools, seq_force_integer_mv))
}

/// Reads the tool flags of a full header.
fn read_tools(b: &mut BitCursor, reduced: bool) -> (r: Result<ToolFlags, Error>)
    requires
        old(b).wf(),
    ensures
        final(b).wf(),
        final(b).bytes() == old(b).bytes(),
        match r {
            Ok(tools) => {
                &&& (tools, final(b).position()) == tools_layout(
                    old(b).bytes(),
                    old(b).position(),
                    reduced,
                )
                &&& bits_fit(old(b).bytes(), final(b).position())
            },
            Err(e) => {
                &&& e == Error::truncated_bits()
                &&& !bits_fit(
                    old(b).bytes(),
                    tools_layout(old(b).bytes(), old(b).position(), reduced).1,
                )
            },
        },
{
    let ghost data = b.bytes();
    proof {
        reveal(tools_layout);
    }
    let mut enable_interintra_compound = false;
    let mut enable_masked_compound = false;
    let mut enable_warped_motion = false;
    let mut enable_dual_filter = false;
    let mut enable_jnt_comp = false;
    let mut enable_ref_frame_mvs = false;
    let mut seq_force_screen_content_tools = SELECT_SCREEN_CONTENT_TOOLS;
    let mut seq_force_integer_mv = SELECT_INTEGER_MV;
    let mut order_hint_bits: u8 = 0;
    let mut enable_order_hint = false;

    if !reduced {
        enable_interintra_compound = b.read_bool()?;
        enable_masked_compound = b.read_bool()?;
        enable_warped_motion = b.read_bool()?;
        enable_dual_filter = b.read_bool()?;
        enable_order_hint = b.read_bool()?;
        if enable_order_hint {
            enable_jnt_comp = b.read_bool()?;
            enable_ref_frame_mvs = b.read_bool()?;
        }
        let (screen, mv) = read_selectors(b)?;
        seq_force_screen_content_tools = screen;
        seq_force_integer_mv = mv;
        if enable_order_hint {
            proof {
                lemma_bits_value_small(data, b.position(), 3);
            }
            order_hint_bits = 1 + b.read_u8(3)?;
        }
    }
    Ok(
        ToolFlags {
            enable_interintra_compound,
            enable_masked_compound,
            enable_warped_motion,
            enable_dual_filter,
            enable_order_hint,
            enable_jnt_comp,
            enable_ref_frame_mvs,
            seq_force_screen_content_tools,
            seq_force_integer_mv,
            order_hint_bits,
        },
    )
}

/// Reads the chroma subsampling pair of a colour image that is neither monochrome nor sRGB.
fn read_subsampling(b: &mut BitCursor, seq_profile: u8, bit_depth: u8) -> (r: Result<
    (u8, u8),
    Error,
>)
    requires
        old(b).wf(),
    ensures
        final(b).wf(),
        final(b).bytes() == old(b).bytes(),
        match r {
            Ok((x, y)) => {
                &&& (x, y, final(b).position()) == subsampling_layout(
                    old(b).bytes(),
                    old(b).position(),
                    seq_profile,
                    bit_depth,
                )
                &&& bits_fit(old(b).bytes(), final(b).position())
            },
            Err(e) => {
                &&& e == Error::truncated_bits()
                &&& !bits_fit(
                    old(b).bytes(),
                    subsampling_layout(
                        old(b).bytes(),
                        old(b).position(),
                        seq_profile,
                        bit_depth,
                    ).2,
                )
            },
        },
{
    if seq_profile == 0 {
        Ok((1, 1))
    } else if seq_profile == 1 {
        Ok((0, 0))
    } else if bit_depth == 12 {
        let subsampling_x = b.read_u8(1)?;
        if subsampling_x != 0 {
            let subsampling_y = b.read_u8(1)?;
            Ok((subsampling_x, subsampling_y))
        } else {
            Ok((0, 0))
        }
    } else {
        Ok((1, 0))
    }
}

/// Reads the bit depth and the monochrome flag.
fn read_depth(b: &mut BitCursor, seq_profile: u8) -> (r: Result<(u8, bool), Error>)
    requires
        old(b).wf(),
    ensures
        final(b).wf(),
        final(b).bytes() == old(b).bytes(),
        match r {
            Ok((bit_depth, mono_chrome)) => {
                &&& (bit_depth, mono_chrome, final(b).position()) == depth_layout(
                    old(b).bytes(),
                    old(b).position(),
                    seq_profile,
                )
                &&& bits_fit(old(b).bytes(), final(b).position())
            },
            Err(e) => {
                &&& e == Error::truncated_bits()
                &&& !bits_fit(
                    old(b).bytes(),
                    depth_layout(old(b).bytes(), old(b).position(), seq_profile).2,
                )
            },
        },
{
    let high_bitdepth = b.read_bool()?;
    let bit_depth: u8 = if seq_profile == 2 && high_bitdepth {
        let twelve_bit = b.read_bool()?;
        if twelve_bit {
            12
        } else {
            10
        }
    } else {
        if high_bitdepth {
            10
        } else {
            8
        }
    };
    let mono_chrome = if seq_profile == 1 {
        false
    } else {
        b.read_bool()?
    };
    Ok((bit_depth, mono_chrome))
}

/// Reads the optional colour primaries, transfer characteristics and matrix coefficients.
fn read_description(b: &mut BitCursor) -> (r: Result<(u8, u8, u8), Error>)
    requires
        old(b).wf(),
    ensures
        final(b).wf(),
        final(b).bytes() == old(b).bytes(),
        match r {
            Ok((primaries, transfer, matrix)) => {
                &&& (primaries, transfer, matrix, final(b).position()) == description_layout(
                    old(b).bytes(),
                    old(b).position(),
                )
                &&& bits_fit(old(b).bytes(), final(b).position())
            },
            Err(e) => {
                &&& e == Error::truncated_bits()
                &&& !bits_fit(
                    old(b).bytes(),
                    description_layout(old(b).bytes(), old(b).position()).3,
                )
            },
        },
{
    let color_description_present_flag = b.read_bool()?;
    let mut color_primaries: u8 = 2;
    let mut transfer_characteristics: u8 = 2;
    let mut matrix_coefficients: u8 = 2;
    if color_description_present_flag {
        color_primaries = b.read_u8(8)?;
        transfer_characteristics = b.read_u8(8)?;
        matrix_coefficients = b.read_u8(8)?;
    }
    Ok((color_primaries, transfer_characteristics, matrix_coefficients))
}

/// Reads the colour range and the chroma fields.
fn read_chroma(
    b: &mut BitCursor,
    seq_profile: u8,
    bit_depth: u8,
    mono_chrome: bool,
    srgb: bool,
) -> (r: Result<(u8, u8, u8, u8, bool), Error>)
    requires
        old(b).wf(),
    ensures
        final(b).wf(),
        final(b).bytes() == old(b).bytes(),
        match r {
            Ok((range, x, y, position, delta)) => {
                &&& (range, x, y, position, delta, final(b).position()) == chroma_layout(
                    old(b).bytes(),
                    old(b).position(),
                    seq_profile,
                    bit_depth,
                    mono_chrome,
                    srgb,
                )
                &&& bits_fit(old(b).bytes(), final(b).position())
            },
            Err(e) => {
                &&& e == Error::truncated_bits()
                &&& !bits_fit(
                    old(b).bytes(),
                    chroma_layout(
                        old(b).bytes(),
                        old(b).position(),
                        seq_profile,
                        bit_depth,
                        mono_chrome,
                        srgb,
                    ).5,
                )
            },
        },
{
    if mono_chrome {
        let color_range = b.read_u8(1)?;
        Ok((color_range, 0, 0, 0, false))
    } else if srgb {
        Ok((1, 0, 0, 0, false))
    } else {
        let color_range = b.read_u8(1)?;
        let (subsampling_x, subsampling_y) = read_subsampling(b, seq_profile, bit_depth)?;
        let chroma_sample_position = if subsampling_x != 0 && subsampling_y != 0 {
            b.read_u8(2)?
        } else {
            0
        };
        let separate_uv_delta_q = b.read_bool()?;
        Ok((color_range, subsampling_x, subsampling_y, chroma_sample_position, separate_uv_delta_q))
    }
}

/// Reads the colour description of a sequence of the given profile.
pub fn color_config(b: &mut BitCursor, seq_profile: u8) -> (r: Result<ColorConfig, Error>)
    requires
        old(b).wf(),
    ensures
        final(b).wf(),
        final(b).bytes() == old(b).bytes(),
        match r {
            Ok(color) => {
                &&& (color, final(b).position()) == color_layout(
                    old(b).bytes(),
                    old(b).position(),
                    seq_profile,
                )
                &&& bits_fit(old(b).bytes(), final(b).position())
                &&& color.bit_depth == 8 || color.bit_depth == 10 || color.bit_depth == 12
            },
            Err(e) => {
                &&& e == Error::truncated_bits()
                &&& !bits_fit(
                    old(b).bytes(),
                    color_layout(old(b).bytes(), old(b).position(), seq_profile).1,
                )
            },
        },
{
    proof {
        reveal(color_layout);
        lemma_color_parts_grow(b.bytes(), b.position(), seq_profile);
    }
    let (bit_depth, mono_chrome) = read_depth(b, seq_profile)?;
    let (color_primaries, transfer_characteristics, matrix_coefficients) = read_description(b)?;
    let srgb = color_primaries == 1 && transfer_characteristics == 13 && matrix_coefficients
        == 0;
    let (
        color_range,
        subsampling_x,
        subsampling_y,
        chroma_sample_position,
        separate_uv_delta_q,
    ) = read_chroma(b, seq_profile, bit_depth, mono_chrome, srgb)?;
    Ok(
        ColorConfig {
            subsampling_x,
            subsampling_y,
            chroma_sample_position,
            separate_uv_delta_q,
            color_range,
            bit_depth,
            mono_chrome,
            color_primaries,
            transfer_characteristics,
            matrix_coefficients,
        },
    )
}

/// Each part of the colour description ends at or after its start.
pub proof fn lemma_color_parts_grow(data: Seq<u8>, pos: int, seq_profile: u8)
    ensures
        pos <= depth_layout(data, pos, seq_profile).2,
        forall|p: int| p <= #[trigger] description_layout(data, p).3,
        forall|p: int, depth: u8, mono: bool, srgb: bool|
            p <= #[trigger] chroma_layout(data, p, seq_profile, depth, mono, srgb).5,
        pos <= color_layout(data, pos, seq_profile).1,
{
    reveal(color_layout);
}

/// The two parts of a sequence header's body end after their start.
pub proof fn lemma_sequence_parts_grow(data: Seq<u8>, pos: int, seq_profile: u8, reduced: bool)
    ensures
        pos + 13 <= geometry_layout(data, pos, reduced).1,
        pos + 4 <= coding_layout(data, pos, seq_profile, reduced).1,
{
    reveal(geometry_layout);
    reveal(coding_layout);
    reveal(frame_size_layout);
    reveal(frame_ids_layout);
    reveal(tools_layout);
    lemma_bits_value_small(data, pos, 4);
    lemma_bits_value_small(data, pos + 4, 4);
    lemma_color_parts_grow(data, tools_layout(data, pos, reduced).1 + 3, seq_profile);
}

/// Reads the frame dimensions, the frame id fields, the superblock flag and two filter flags.
fn read_geometry(b: &mut BitCursor, reduced: bool) -> (r: Result<
    (u32, u32, bool, u8, u8, bool),
    Error,
>)
    requires
        old(b).wf(),
    ensures
        final(b).wf(),
        final(b).bytes() == old(b).bytes(),
        match r {
            Ok(geometry) => {
                &&& (geometry, final(b).position()) == geometry_layout(
                    old(b).bytes(),
                    old(b).position(),
                    reduced,
                )
                &&& bits_fit(old(b).bytes(), final(b).position())
                &&& 1 <= geometry.0 <= 65536
                &&& 1 <= geometry.1 <= 65536
            },
            Err(e) => {
                &&& e == Error::truncated_bits()
                &&& !bits_fit(
                    old(b).bytes(),
                    geometry_layout(old(b).bytes(), old(b).position(), reduced).1,
                )
            },
        },
{
    proof {
        reveal(geometry_layout);
        reveal(frame_size_layout);
        reveal(frame_ids_layout);
        lemma_bits_value_small(b.bytes(), b.position(), 4);
        lemma_bits_value_small(b.bytes(), b.position() + 4, 4);
    }
    let (max_frame_width, max_frame_height) = read_frame_size(b)?;
    let (frame_id_numbers_present_flag, delta_frame_id_length, additional_frame_id_length) =
        read_frame_ids(b, reduced)?;
    let use_128x128_superblock = b.read_bool()?;
    let _enable_filter_intra = b.read_bool()?;
    let _enable_intra_edge_filter = b.read_bool()?;
    Ok(
        (
            max_frame_width,
            max_frame_height,
            frame_id_numbers_present_flag,
            delta_frame_id_length,
            additional_frame_id_length,
            use_128x128_superblock,
        ),
    )
}

/// Reads the tool flags, the three filter flags, the colour description and the film grain
/// flag.
fn read_coding(b: &mut BitCursor, seq_profile: u8, reduced: bool) -> (r: Result<
    (ToolFlags, bool, bool, bool, ColorConfig, bool),
    Error,
>)
    requires
        old(b).wf(),
    ensures
        final(b).wf(),
        final(b).bytes() == old(b).bytes(),
        match r {
            Ok(coding) => {
                &&& (coding, final(b).position()) == coding_layout(
                    old(b).bytes(),
                    old(b).position(),
                    seq_profile,
                    reduced,
                )
                &&& bits_fit(old(b).bytes(), final(b).position())
                &&& coding.4.bit_depth == 8 || coding.4.bit_depth == 10 || coding.4.bit_depth
                    == 12
            },
            Err(e) => {
                &&& e == Error::truncated_bits()
                &&& !bits_fit(
                    old(b).bytes(),
                    coding_layout(old(b).bytes(), old(b).position(), seq_profile, reduced).1,
                )
            },
        },
{
    proof {
        reveal(coding_layout);
        reveal(tools_layout);
        lemma_color_parts_grow(
            b.bytes(),
            tools_layout(b.bytes(), b.position(), reduced).1 + 3,
            seq_profile,
        );
    }
    let tools = read_tools(b, reduced)?;
    let enable_superres = b.read_bool()?;
    let enable_cdef = b.read_bool()?;
    let enable_restoration = b.read_bool()?;
    let color = color_config(b, seq_profile)?;
    let film_grain_params_present = b.read_bool()?;
    Ok((tools, enable_superres, enable_cdef, enable_restoration, color, film_grain_params_present))
}

/// Reads a sequence header from its frame size fields on.
fn read_body(b: &mut BitCursor, seq_profile: u8, still_picture: bool, reduced: bool) -> (r: Result<
    SequenceHeaderObu,
    Error,
>)
    requires
        old(b).wf(),
    ensures
        final(b).wf(),
        final(b).bytes() == old(b).bytes(),
        match r {
            Ok(header) => {
                &&& (header, final(b).position()) == sequence_body_layout(
                    old(b).bytes(),
                    old(b).position(),
                    seq_profile,
                    still_picture,
                    reduced,
                )
                &&& bits_fit(old(b).bytes(), final(b).position())
                &&& 1 <= header.max_frame_width <= 65536
                &&& 1 <= header.max_frame_height <= 65536
                &&& header.color.bit_depth == 8 || header.color.bit_depth == 10
                    || header.color.bit_depth == 12
            },
            Err(e) => {
                &&& e == Error::truncated_bits()
                &&& !bits_fit(
                    old(b).bytes(),
                    sequence_body_layout(
                        old(b).bytes(),
                        old(b).position(),
                        seq_profile,
                        still_picture,
                        reduced,
                    ).1,
                )
            },
        },
{
    proof {
        lemma_sequence_parts_grow(
            b.bytes(),
            geometry_layout(b.bytes(), b.position(), reduced).1,
            seq_profile,
            reduced,
        );
    }
    let geometry = read_geometry(b, reduced)?;
    let coding = read_coding(b, seq_profile, reduced)?;
    let tools = coding.0;
    Ok(
        SequenceHeaderObu {
            color: coding.4,
            seq_profile,
            still_picture,
            reduced_still_picture_header: reduced,
            max_frame_width: geometry.0,
            max_frame_height: geometry.1,
            enable_superres: coding.1,
            enable_cdef: coding.2,
            enable_restoration: coding.3,
            frame_id_numbers_present_flag: geometry.2,
            delta_frame_id_length: geometry.3,
            additional_frame_id_length: geometry.4,
            film_grain_params_present: coding.5,
            decoder_model_info_present_flag: false,
            seq_force_screen_content_tools: tools.seq_force_screen_content_tools,
            seq_force_integer_mv: tools.seq_force_integer_mv,
            order_hint_bits: tools.order_hint_bits,
            enable_order_hint: tools.enable_order_hint,
            use_128x128_superblock: geometry.5,
            enable_interintra_compound: tools.enable_interintra_compound,
            enable_masked_compound: tools.enable_masked_compound,
            enable_warped_motion: tools.enable_warped_motion,
            enable_dual_filter: tools.enable_dual_filter,
            enable_jnt_comp: tools.enable_jnt_comp,
            enable_ref_frame_mvs: tools.enable_ref_frame_mvs,
        },
    )
}

impl SequenceHeaderObu {
    /// What holds of every header that was read: both dimensions are positive, the bit depth
    /// is 8, 10 or 12, and the profile is 0, 1 or 2.
    pub open spec fn valid(&self) -> bool {
        &&& self.max_frame_width >= 1
        &&& self.max_frame_height >= 1
        &&& (self.color.bit_depth == 8 || self.color.bit_depth == 10 || self.color.bit_depth
            == 12)
        &&& self.seq_profile <= 2
    }

    /// Reads a sequence header from the payload of its unit.
    pub fn read(data: &[u8]) -> (r: Result<Self, Error>)
        ensures
            r == spec_sequence_header(data@),
            r is Ok ==> r->Ok_0.valid(),
    {
        let mut b = BitCursor::new(data)?;
        proof {
            lemma_bits_value_small(data@, 0, 3);
            lemma_bits_value_small(data@, 7, 5);
            lemma_operating_points_grow(
                data@,
                12,
                0,
                1 + bits_value(data@, 7, 5),
                flag_at(data@, 6),
            );
        }
        let seq_profile = b.read_u8(3)?;
        if seq_profile > 2 {
            return Err(Error::InvalidData("seq_profile"));
        }
        let still_picture = b.read_bool()?;
        let reduced_still_picture_header = b.read_bool()?;
        proof {
            let p_size = frame_size_start(data@, reduced_still_picture_header);
            lemma_sequence_parts_grow(data@, p_size, seq_profile, reduced_still_picture_header);
            lemma_sequence_parts_grow(
                data@,
                geometry_layout(data@, p_size, reduced_still_picture_header).1,
                seq_profile,
                reduced_still_picture_header,
            );
        }
        read_operating_parameters(&mut b, reduced_still_picture_header)?;
        read_body(&mut b, seq_profile, still_picture, reduced_still_picture_header)
    }
}

// ---------------------------------------------------------------------------------------
// The stream of units
// ---------------------------------------------------------------------------------------
/// The unsigned LEB128 number that starts at byte `i` of `s`, counted in units of `128^i`,
/// and the index after its last byte. Each byte gives seven bits, least significant group
/// first, and its top bit says whether another byte follows. There is no number where the
/// bytes end before one without a top bit, or where a tenth byte is anything but 0 or 1
/// (which is where 64 bits overflow).
pub open spec fn leb128_from(s: Seq<u8>, i: int) -> Option<(nat, nat)>
    decreases 10 - i,
{
    if i < 0 || i > 9 || i >= s.len() {
        None
    } else if i == 9 && s[i] > 1 {
        None
    } else if s[i] < 128 {
        Some((s[i] as nat, (i + 1) as nat))
    } else {
        match leb128_from(s, i + 1) {
            Some((rest, end)) => Some(((s[i] - 128 + 128 * rest) as nat, end)),
            None => None,
        }
    }
}

/// Where a LEB128 number exists, it ends inside the bytes.
pub proof fn lemma_leb128_end(s: Seq<u8>, i: int)
    ensures
        match leb128_from(s, i) {
            Some((_, end)) => i < end <= s.len(),
            None => true,
        },
    decreases 10 - i,
{
    if 0 <= i <= 9 && i < s.len() && !(i == 9 && s[i] > 1) && s[i] >= 128 {
        lemma_leb128_end(s, i + 1);
    }
}

/// What the header at the start of `s` says of its unit, and the header's length in bytes.
/// The first byte's top bit must be clear; its next four bits are the unit's type, where 1 is
/// a sequence header; bit 2 announces one more header byte; bit 1 announces a LEB128 payload
/// size, without which the payload is the rest of `s`.
pub open spec fn spec_obu_header(s: Seq<u8>) -> Result<(Header, nat), Error> {
    if s.len() == 0 {
        Err(Error::UnexpectedEOF)
    } else if s[0] & 0x80 != 0 {
        Err(Error::InvalidData("not obu"))
    } else {
        let start: nat = if s[0] & 0x04 != 0 {
            2
        } else {
            1
        };
        let is_sequence_header = (s[0] >> 3) == 1;
        if start > s.len() {
            Err(Error::UnexpectedEOF)
        } else if s[0] & 0x02 != 0 {
            match leb128_from(s.skip(start as int), 0) {
                None => Err(Error::InvalidData("leb")),
                Some((size, end)) => if size > usize::MAX {
                    Err(Error::UnexpectedEOF)
                } else {
                    Ok((Header { obu_size: size as usize, is_sequence_header }, start + end))
                },
            }
        } else {
            Ok((Header { obu_size: (s.len() - start) as usize, is_sequence_header }, start))
        }
    }
}

/// What [`parse_obu`] gives for the stream `s`: the first unit whose header marks a
/// sequence header is read as one; units before it are passed over; a header or a payload
/// that runs past the end, or a stream without a sequence header, is an unexpected end.
pub open spec fn spec_parse_obu(s: Seq<u8>) -> Result<SequenceHeaderObu, Error>
    decreases s.len(),
{
    if s.len() == 0 {
        Err(Error::UnexpectedEOF)
    } else {
        match spec_obu_header(s) {
            Err(e) => Err(e),
            Ok((h, start)) => if start + h.obu_size > s.len() {
                Err(Error::UnexpectedEOF)
            } else if h.is_sequence_header {
                spec_sequence_header(s.subrange(start as int, start + h.obu_size))
            } else {
                spec_parse_obu(s.skip(start + h.obu_size as int))
            },
        }
    }
}

/// Calls `leb128::read::unsigned` on the byte slice: on success the slice is advanced past
/// the number's bytes and the number is the LEB128 value that they encode; it fails, which
/// shows here as `None`, exactly when no such number starts the slice.
#[verifier::external_body]
fn leb128_unsigned(data: &mut &[u8]) -> (r: Option<u64>)
    ensures
        match r {
            Some(v) => match leb128_from(old(data)@, 0) {
                Some((value, end)) => v == value && final(data)@ == old(data)@.skip(end as int),
                None => false,
            },
            None => leb128_from(old(data)@, 0) is None,
        },
{
    leb128::read::unsigned(data).ok()
}

/// Takes the first byte off `data`.
pub fn get_byte(data: &mut &[u8]) -> (r: Result<u8, Error>)
    ensures
        match r {
            Ok(b) => old(data)@.len() > 0 && b == old(data)@[0] && final(data)@ == old(
                data,
            )@.skip(1),
            Err(e) => old(data)@.len() == 0 && e == Error::UnexpectedEOF && final(data)@ == old(
                data,
            )@,
        },
{
    if data.len() == 0 {
        return Err(Error::UnexpectedEOF);
    }
    let b = data[0];
    *data = slice_subrange(*data, 1, data.len());
    Ok(b)
}

/// An OBU header is at least one byte long and lies inside the stream.
pub proof fn lemma_obu_header_length(s: Seq<u8>)
    ensures
        match spec_obu_header(s) {
            Ok((_, start)) => 1 <= start <= s.len(),
            Err(_) => true,
        },
{
    if s.len() > 0 {
        let start: int = if s[0] & 0x04 != 0 {
            2
        } else {
            1
        };
        lemma_leb128_end(s.skip(start), 0);
    }
}

/// Every sequence header that can be read is valid: its dimensions are positive, its bit
/// depth is 8, 10 or 12, and its profile is 0, 1 or 2.
pub proof fn lemma_sequence_header_is_valid(data: Seq<u8>)
    ensures
        match spec_sequence_header(data) {
            Ok(h) => h.valid(),
            Err(_) => true,
        },
{
    reveal(geometry_layout);
    reveal(coding_layout);
    reveal(frame_size_layout);
    reveal(color_layout);
    let p = frame_size_start(data, flag_at(data, 4));
    let width_bits = 1 + bits_value(data, p, 4);
    let height_bits = 1 + bits_value(data, p + 4, 4);
    lemma_bits_value_small(data, 0, 3);
    lemma_bits_value_small(data, p, 4);
    lemma_bits_value_small(data, p + 4, 4);
    lemma_bits_value_small(data, p + 8, width_bits);
    lemma_bits_value_small(data, p + 8 + width_bits, height_bits);
}

/// Every sequence header that can be found in a stream is valid.
pub proof fn lemma_parse_obu_is_valid(s: Seq<u8>)
    ensures
        match spec_parse_obu(s) {
            Ok(h) => h.valid(),
            Err(_) => true,
        },
    decreases s.len(),
{
    if s.len() > 0 {
        lemma_obu_header_length(s);
        match spec_obu_header(s) {
            Ok((h, start)) => {
                if start + h.obu_size <= s.len() {
                    if h.is_sequence_header {
                        lemma_sequence_header_is_valid(
                            s.subrange(start as int, start + h.obu_size),
                        );
                    } else {
                        lemma_parse_obu_is_valid(s.skip(start + h.obu_size as int));
                    }
                }
            },
            Err(_) => {},
        }
    }
}

/// Reads one OBU header off `data`.
pub fn obu_header(data: &mut &[u8]) -> (r: Result<Header, Error>)
    ensures
        match spec_obu_header(old(data)@) {
            Ok((h, start)) => r == Ok::<Header, Error>(h) && final(data)@ == old(data)@.skip(
                start as int,
            ),
            Err(e) => r == Err::<Header, Error>(e),
        },
{
    let b = get_byte(data)?;
    if 0 != b & 0x80 {
        return Err(Error::InvalidData("not obu"));
    }
    let is_sequence_header = 1 == (b >> 3);
    let obu_extension_flag = 0 != (b & 0x04);
    let obu_has_size_field = 0 != (b & 0x02);

    if obu_extension_flag {
        let _extension = get_byte(data)?;
    }
    let ghost start: int = if obu_extension_flag {
        2
    } else {
        1
    };
    assert(data@ == old(data)@.skip(start));

    let obu_size: usize = if obu_has_size_field {
        let size = match leb128_unsigned(data) {
            Some(size) => size,
            None => {
                return Err(Error::InvalidData("leb"));
            },
        };
        proof {
            lemma_leb128_end(old(data)@.skip(start), 0);
            let end = leb128_from(old(data)@.skip(start), 0).unwrap().1;
            assert(old(data)@.skip(start).skip(end as int) == old(data)@.skip(start + end));
        }
        if size > usize::MAX as u64 {
            return Err(Error::UnexpectedEOF);
        }
        size as usize
    } else {
        data.len()
    };

    Ok(Header { obu_size, is_sequence_header })
}

/// Finds the first sequence header of an AV1 elementary stream and reads it.
pub fn parse_obu(data: &[u8]) -> (r: Result<SequenceHeaderObu, Error>)
    ensures
        r == spec_parse_obu(data@),
        r is Ok ==> r->Ok_0.valid(),
{
    let mut rest = data;
    while rest.len() > 0
        invariant
            spec_parse_obu(rest@) == spec_parse_obu(data@),
        decreases rest@.len(),
    {
        let ghost before = rest@;
        let h = obu_header(&mut rest)?;
        if h.obu_size > rest.len() {
            return Err(Error::UnexpectedEOF);
        }
        let remaining_data = slice_subrange(rest, 0, h.obu_size);
        proof {
            let start = spec_obu_header(before).unwrap().1;
            lemma_obu_header_length(before);
            assert(rest@ == before.skip(start as int));
            assert(before.skip(start as int).subrange(0, h.obu_size as int) =~= before.subrange(
                start as int,
                start + h.obu_size,
            ));
            assert(before.skip(start as int).skip(h.obu_size as int) =~= before.skip(
                start + h.obu_size,
            ));
        }
        rest = slice_subrange(rest, h.obu_size, rest.len());

        if h.is_sequence_header {
            return SequenceHeaderObu::read(remaining_data);
        }
    }
    Err(Error::UnexpectedEOF)
}

} // verus!
