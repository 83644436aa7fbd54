use avif_parse::obu::get_byte;
use avif_parse::obu::obu_header;
use avif_parse::obu::SequenceHeaderObu;
use avif_parse::parse_obu;
use avif_parse::AvifData;
use avif_parse::Error;

/// Writes numbers bit by bit, most significant bit first.
struct BitWriter {
    bytes: Vec<u8>,
    used: usize,
}

impl BitWriter {
    fn new() -> Self {
        BitWriter { bytes: Vec::new(), used: 0 }
    }

    fn put(&mut self, value: u64, bits: usize) -> &mut Self {
        for i in (0..bits).rev() {
            if self.used % 8 == 0 {
                self.bytes.push(0);
            }
            let bit = ((value >> i) & 1) as u8;
            let last = self.bytes.len() - 1;
            self.bytes[last] |= bit << (7 - self.used % 8);
            self.used += 1;
        }
        self
    }

    fn finish(&self) -> Vec<u8> {
        self.bytes.clone()
    }
}

/// An OBU of the given type with a size field.
fn obu(obu_type: u8, payload: &[u8]) -> Vec<u8> {
    assert!(payload.len() < 128);
    let mut out = vec![(obu_type << 3) | 0x02, payload.len() as u8];
    out.extend_from_slice(payload);
    out
}

/// A reduced still picture header of profile 0: 100 by 50, 8 bits, 4:2:0.
fn reduced_header() -> Vec<u8> {
    let mut w = BitWriter::new();
    w.put(0, 3) // seq_profile
        .put(1, 1) // still_picture
        .put(1, 1) // reduced_still_picture_header
        .put(4, 5) // seq_level_idx
        .put(7, 4) // frame_width_bits_minus_1
        .put(5, 4) // frame_height_bits_minus_1
        .put(99, 8) // max_frame_width_minus_1
        .put(49, 6) // max_frame_height_minus_1
        .put(0, 1) // use_128x128_superblock
        .put(1, 1) // enable_filter_intra
        .put(1, 1) // enable_intra_edge_filter
        .put(0, 1) // enable_superres
        .put(1, 1) // enable_cdef
        .put(0, 1) // enable_restoration
        .put(0, 1) // high_bitdepth
        .put(0, 1) // mono_chrome
        .put(0, 1) // color_description_present_flag
        .put(1, 1) // color_range
        .put(2, 2) // chroma_sample_position
        .put(1, 1) // separate_uv_delta_q
        .put(1, 1); // film_grain_params_present
    w.finish()
}

#[test]
fn empty_stream_has_no_sequence_header() {
    assert!(matches!(parse_obu(&[]), Err(Error::UnexpectedEOF)));
}

#[test]
fn reduced_still_picture_header_fields() {
    let stream = obu(1, &reduced_header());
    let h = parse_obu(&stream).unwrap();
    assert_eq!(h.seq_profile, 0);
    assert!(h.still_picture);
    assert!(h.reduced_still_picture_header);
    assert_eq!(h.max_frame_width, 100);
    assert_eq!(h.max_frame_height, 50);
    assert!(!h.use_128x128_superblock);
    assert!(!h.enable_superres);
    assert!(h.enable_cdef);
    assert!(!h.enable_restoration);
    assert!(!h.frame_id_numbers_present_flag);
    assert_eq!(h.delta_frame_id_length, 0);
    assert_eq!(h.additional_frame_id_length, 0);
    assert_eq!(h.seq_force_screen_content_tools, 2);
    assert_eq!(h.seq_force_integer_mv, 2);
    assert_eq!(h.order_hint_bits, 0);
    assert!(!h.enable_order_hint);
    assert!(!h.decoder_model_info_present_flag);
    assert!(h.film_grain_params_present);
    assert_eq!(h.color.bit_depth, 8);
    assert!(!h.color.mono_chrome);
    assert_eq!(h.color.color_primaries, 2);
    assert_eq!(h.color.transfer_characteristics, 2);
    assert_eq!(h.color.matrix_coefficients, 2);
    assert_eq!(h.color.color_range, 1);
    assert_eq!(h.color.subsampling_x, 1);
    assert_eq!(h.color.subsampling_y, 1);
    assert_eq!(h.color.chroma_sample_position, 2);
    assert!(h.color.separate_uv_delta_q);
}

#[test]
fn sequence_header_is_found_after_other_units() {
    let mut stream = obu(2, &[]);
    stream.extend(obu(15, &[1, 2, 3]));
    stream.extend(obu(1, &reduced_header()));
    stream.extend(obu(6, &[9; 20]));
    let h = parse_obu(&stream).unwrap();
    assert_eq!(h.max_frame_width, 100);
    assert_eq!(h.max_frame_height, 50);
}

#[test]
fn only_the_first_sequence_header_is_read() {
    let mut second = BitWriter::new();
    second.put(3, 3);
    let mut stream = obu(1, &reduced_header());
    stream.extend(obu(1, &second.finish()));
    assert_eq!(parse_obu(&stream).unwrap().max_frame_width, 100);
}

#[test]
fn full_header_with_operating_points() {
    let mut w = BitWriter::new();
    w.put(2, 3) // seq_profile
        .put(0, 1) // still_picture
        .put(0, 1) // reduced_still_picture_header
        .put(0, 1) // timing_info_present_flag
        .put(1, 1) // initial_display_delay_present_flag
        .put(1, 5) // operating_points_cnt_minus_1
        // first operating point
        .put(0x123, 12) // operating_point_idc
        .put(9, 5) // seq_level_idx, above 7
        .put(1, 1) // seq_tier
        .put(1, 1) // initial_display_delay_present_for_this_op
        .put(5, 4) // initial_display_delay_minus_1
        // second operating point
        .put(0, 12) // operating_point_idc
        .put(3, 5) // seq_level_idx
        .put(0, 1) // initial_display_delay_present_for_this_op
        .put(15, 4) // frame_width_bits_minus_1
        .put(15, 4) // frame_height_bits_minus_1
        .put(65535, 16) // max_frame_width_minus_1
        .put(4319, 16) // max_frame_height_minus_1
        .put(1, 1) // frame_id_numbers_present_flag
        .put(13, 4) // delta_frame_id_length_minus_2
        .put(6, 3) // additional_frame_id_length_minus_1
        .put(1, 1) // use_128x128_superblock
        .put(0, 1) // enable_filter_intra
        .put(0, 1) // enable_intra_edge_filter
        .put(1, 1) // enable_interintra_compound
        .put(0, 1) // enable_masked_compound
        .put(1, 1) // enable_warped_motion
        .put(0, 1) // enable_dual_filter
        .put(1, 1) // enable_order_hint
        .put(0, 1) // enable_jnt_comp
        .put(1, 1) // enable_ref_frame_mvs
        .put(0, 1) // seq_choose_screen_content_tools
        .put(1, 1) // seq_force_screen_content_tools
        .put(0, 1) // seq_choose_integer_mv
        .put(0, 1) // seq_force_integer_mv
        .put(6, 3) // order_hint_bits_minus_1
        .put(1, 1) // enable_superres
        .put(0, 1) // enable_cdef
        .put(1, 1) // enable_restoration
        .put(1, 1) // high_bitdepth
        .put(1, 1) // twelve_bit
        .put(0, 1) // mono_chrome
        .put(1, 1) // color_description_present_flag
        .put(9, 8) // color_primaries
        .put(16, 8) // transfer_characteristics
        .put(9, 8) // matrix_coefficients
        .put(0, 1) // color_range
        .put(1, 1) // subsampling_x
        .put(0, 1) // subsampling_y
        .put(0, 1) // separate_uv_delta_q
        .put(0, 1); // film_grain_params_present
    let stream = obu(1, &w.finish());
    let h = parse_obu(&stream).unwrap();
    assert_eq!(h.seq_profile, 2);
    assert!(!h.still_picture);
    assert!(!h.reduced_still_picture_header);
    assert_eq!(h.max_frame_width, 65536);
    assert_eq!(h.max_frame_height, 4320);
    assert!(h.frame_id_numbers_present_flag);
    assert_eq!(h.delta_frame_id_length, 15);
    assert_eq!(h.additional_frame_id_length, 7);
    assert!(h.use_128x128_superblock);
    assert!(h.enable_interintra_compound);
    assert!(!h.enable_masked_compound);
    assert!(h.enable_warped_motion);
    assert!(!h.enable_dual_filter);
    assert!(h.enable_order_hint);
    assert!(!h.enable_jnt_comp);
    assert!(h.enable_ref_frame_mvs);
    assert_eq!(h.seq_force_screen_content_tools, 1);
    assert_eq!(h.seq_force_integer_mv, 0);
    assert_eq!(h.order_hint_bits, 7);
    assert!(h.enable_superres);
    assert!(!h.enable_cdef);
    assert!(h.enable_restoration);
    assert_eq!(h.color.bit_depth, 12);
    assert!(!h.color.mono_chrome);
    assert_eq!(h.color.color_primaries, 9);
    assert_eq!(h.color.transfer_characteristics, 16);
    assert_eq!(h.color.matrix_coefficients, 9);
    assert_eq!(h.color.color_range, 0);
    assert_eq!(h.color.subsampling_x, 1);
    assert_eq!(h.color.subsampling_y, 0);
    assert_eq!(h.color.chroma_sample_position, 0);
    assert!(!h.color.separate_uv_delta_q);
    assert!(!h.film_grain_params_present);
}

/// A reduced header of the given profile up to its colour description, which the caller
/// writes.
fn header_up_to_color(profile: u64) -> BitWriter {
    let mut w = BitWriter::new();
    w.put(profile, 3)
        .put(1, 1)
        .put(1, 1)
        .put(0, 5)
        .put(0, 4) // one bit of width
        .put(0, 4) // one bit of height
        .put(0, 1) // width 1
        .put(1, 1) // height 2
        .put(0, 3) // superblock and filters
        .put(0, 3); // superres, cdef, restoration
    w
}

#[test]
fn smallest_dimensions_are_positive() {
    let mut w = header_up_to_color(0);
    w.put(0, 1).put(0, 1).put(0, 1).put(0, 1).put(0, 2).put(0, 1).put(0, 1);
    let h = parse_obu(&obu(1, &w.finish())).unwrap();
    assert_eq!(h.max_frame_width, 1);
    assert_eq!(h.max_frame_height, 2);
}

#[test]
fn srgb_has_no_subsampling_and_full_range() {
    let mut w = header_up_to_color(0);
    w.put(0, 1) // high_bitdepth
        .put(0, 1) // mono_chrome
        .put(1, 1) // color_description_present_flag
        .put(1, 8)
        .put(13, 8)
        .put(0, 8)
        .put(1, 1); // film_grain_params_present
    let h = parse_obu(&obu(1, &w.finish())).unwrap();
    assert_eq!(h.color.color_range, 1);
    assert_eq!(h.color.subsampling_x, 0);
    assert_eq!(h.color.subsampling_y, 0);
    assert_eq!(h.color.chroma_sample_position, 0);
    assert!(!h.color.separate_uv_delta_q);
    assert!(h.film_grain_params_present);
}

#[test]
fn monochrome_has_no_subsampling() {
    let mut w = header_up_to_color(0);
    w.put(1, 1) // high_bitdepth
        .put(1, 1) // mono_chrome
        .put(0, 1) // color_description_present_flag
        .put(1, 1) // color_range
        .put(0, 1); // film_grain_params_present
    let h = parse_obu(&obu(1, &w.finish())).unwrap();
    assert_eq!(h.color.bit_depth, 10);
    assert!(h.color.mono_chrome);
    assert_eq!(h.color.color_range, 1);
    assert_eq!(h.color.subsampling_x, 0);
    assert_eq!(h.color.subsampling_y, 0);
    let meta = AvifData::parse_obu(&obu(1, &w.finish())).unwrap();
    assert_eq!(meta.chroma_subsampling, (false, false));
    assert_eq!(meta.bit_depth, 10);
}

#[test]
fn profile_1_is_444_without_a_monochrome_flag() {
    let mut w = header_up_to_color(1);
    w.put(1, 1) // high_bitdepth
        .put(0, 1) // color_description_present_flag
        .put(0, 1) // color_range
        .put(1, 1) // separate_uv_delta_q
        .put(0, 1); // film_grain_params_present
    let h = parse_obu(&obu(1, &w.finish())).unwrap();
    assert_eq!(h.seq_profile, 1);
    assert_eq!(h.color.bit_depth, 10);
    assert!(!h.color.mono_chrome);
    assert_eq!(h.color.subsampling_x, 0);
    assert_eq!(h.color.subsampling_y, 0);
    assert!(h.color.separate_uv_delta_q);
}

#[test]
fn profile_2_at_10_bits_is_422() {
    let mut w = header_up_to_color(2);
    w.put(1, 1) // high_bitdepth
        .put(0, 1) // twelve_bit
        .put(0, 1) // mono_chrome
        .put(0, 1) // color_description_present_flag
        .put(0, 1) // color_range
        .put(0, 1) // separate_uv_delta_q
        .put(0, 1); // film_grain_params_present
    let h = parse_obu(&obu(1, &w.finish())).unwrap();
    assert_eq!(h.color.bit_depth, 10);
    assert_eq!(h.color.subsampling_x, 1);
    assert_eq!(h.color.subsampling_y, 0);
    let meta = AvifData::parse_obu(&obu(1, &w.finish())).unwrap();
    assert_eq!(meta.chroma_subsampling, (true, false));
    assert_eq!(meta.seq_profile, 2);
}

#[test]
fn profile_2_at_12_bits_without_subsampling_reads_one_flag() {
    let mut w = header_up_to_color(2);
    w.put(1, 1) // high_bitdepth
        .put(1, 1) // twelve_bit
        .put(0, 1) // mono_chrome
        .put(0, 1) // color_description_present_flag
        .put(1, 1) // color_range
        .put(0, 1) // subsampling_x
        .put(1, 1) // separate_uv_delta_q
        .put(1, 1); // film_grain_params_present
    let h = parse_obu(&obu(1, &w.finish())).unwrap();
    assert_eq!(h.color.bit_depth, 12);
    assert_eq!(h.color.subsampling_x, 0);
    assert_eq!(h.color.subsampling_y, 0);
    assert!(h.color.separate_uv_delta_q);
    assert!(h.film_grain_params_present);
}

#[test]
fn profile_above_2_is_invalid() {
    let mut w = BitWriter::new();
    w.put(3, 3).put(0, 5);
    assert!(matches!(parse_obu(&obu(1, &w.finish())), Err(Error::InvalidData("seq_profile"))));
}

#[test]
fn timing_info_is_unsupported() {
    let mut w = BitWriter::new();
    w.put(0, 3).put(0, 1).put(0, 1).put(1, 1).put(0, 2);
    assert!(matches!(
        parse_obu(&obu(1, &w.finish())),
        Err(Error::Unsupported("timing_info_present_flag"))
    ));
}

#[test]
fn truncated_header_is_invalid() {
    let header = reduced_header();
    for len in 0..header.len() {
        assert!(
            matches!(parse_obu(&obu(1, &header[..len])), Err(Error::InvalidData("truncated bits"))),
            "{}",
            len
        );
    }
    assert!(parse_obu(&obu(1, &header)).is_ok());
}

#[test]
fn forbidden_bit_is_invalid() {
    assert!(matches!(parse_obu(&[0x8a, 0x00]), Err(Error::InvalidData("not obu"))));
}

#[test]
fn stream_without_sequence_header_ends_unexpectedly() {
    let mut stream = obu(2, &[]);
    stream.extend(obu(6, &[1, 2, 3]));
    assert!(matches!(parse_obu(&stream), Err(Error::UnexpectedEOF)));
}

#[test]
fn unit_longer_than_stream_ends_unexpectedly() {
    let mut stream = obu(1, &reduced_header());
    stream[1] += 1;
    assert!(matches!(parse_obu(&stream), Err(Error::UnexpectedEOF)));
}

#[test]
fn unit_without_size_field_runs_to_the_end() {
    let mut stream = vec![1 << 3];
    stream.extend(reduced_header());
    assert_eq!(parse_obu(&stream).unwrap().max_frame_width, 100);
}

#[test]
fn extension_flag_takes_one_more_header_byte() {
    let header = reduced_header();
    let mut stream = vec![(1 << 3) | 0x04 | 0x02, 0xff, header.len() as u8];
    stream.extend(&header);
    assert_eq!(parse_obu(&stream).unwrap().max_frame_height, 50);

    let mut data: &[u8] = &[(2 << 3) | 0x04];
    assert!(matches!(obu_header(&mut data), Err(Error::UnexpectedEOF)));
}

#[test]
fn size_field_is_leb128() {
    // A padding unit of 300 bytes: 300 = 0b10_0101100, so 0xac 0x02.
    let mut stream = vec![(15 << 3) | 0x02, 0xac, 0x02];
    stream.extend(vec![0u8; 300]);
    stream.extend(obu(1, &reduced_header()));
    assert_eq!(parse_obu(&stream).unwrap().max_frame_width, 100);

    let mut data: &[u8] = &stream;
    let h = obu_header(&mut data).unwrap();
    assert_eq!(h.obu_size, 300);
    assert!(!h.is_sequence_header);
    assert_eq!(data.len(), stream.len() - 3);

    // The same number with a padded encoding.
    let mut data: &[u8] = &[(1 << 3) | 0x02, 0xac, 0x82, 0x80, 0x00, 7];
    let h = obu_header(&mut data).unwrap();
    assert_eq!(h.obu_size, 300);
    assert!(h.is_sequence_header);
    assert_eq!(data, &[7]);
}

#[test]
fn size_field_of_64_bits() {
    // Nine bytes of seven set bits each and a tenth byte of 1: all 64 bits set.
    let mut bytes = vec![(2 << 3) | 0x02];
    bytes.extend([0xff; 9]);
    bytes.push(0x01);
    let mut data: &[u8] = &bytes;
    let h = obu_header(&mut data).unwrap();
    assert_eq!(h.obu_size as u64, u64::MAX);
    assert!(data.is_empty());
    assert!(matches!(parse_obu(&bytes), Err(Error::UnexpectedEOF)));
}

#[test]
fn size_field_that_overflows_or_ends_early_is_invalid() {
    let mut bytes = vec![(2 << 3) | 0x02];
    bytes.extend([0xff; 9]);
    bytes.push(0x02);
    assert!(matches!(parse_obu(&bytes), Err(Error::InvalidData("leb"))));
    assert!(matches!(parse_obu(&[(2 << 3) | 0x02, 0x80]), Err(Error::InvalidData("leb"))));
    assert!(matches!(parse_obu(&[(2 << 3) | 0x02]), Err(Error::InvalidData("leb"))));
}

#[test]
fn get_byte_takes_the_first_byte() {
    let mut data: &[u8] = &[7, 8];
    assert_eq!(get_byte(&mut data).unwrap(), 7);
    assert_eq!(data, &[8]);
    assert_eq!(get_byte(&mut data).unwrap(), 8);
    assert!(matches!(get_byte(&mut data), Err(Error::UnexpectedEOF)));
}

#[test]
fn sequence_header_read_needs_no_unit_header() {
    let h = SequenceHeaderObu::read(&reduced_header()).unwrap();
    assert_eq!(h.max_frame_width, 100);
    assert!(matches!(SequenceHeaderObu::read(&[]), Err(Error::InvalidData("truncated bits"))));
}

#[test]
fn metadata_keeps_what_callers_need() {
    let meta = AvifData::parse_obu(&obu(1, &reduced_header())).unwrap();
    assert!(meta.still_picture);
    assert_eq!(meta.max_frame_width, 100);
    assert_eq!(meta.max_frame_height, 50);
    assert_eq!(meta.bit_depth, 8);
    assert_eq!(meta.seq_profile, 0);
    assert_eq!(meta.chroma_subsampling, (true, true));
}

#[test]
fn valid_headers_have_positive_dimensions_and_known_depths() {
    for profile in 0..3u64 {
        for high in 0..2u64 {
            let mut w = header_up_to_color(profile);
            w.put(high, 1);
            if profile == 2 && high == 1 {
                w.put(1, 1);
            }
            w.put(0xffff_ffff, 32);
            let h = parse_obu(&obu(1, &w.finish())).unwrap();
            assert!(h.max_frame_width >= 1 && h.max_frame_height >= 1);
            assert!([8, 10, 12].contains(&h.color.bit_depth));
            assert!(h.seq_profile <= 2);
        }
    }
}

#[test]
fn damaged_streams_give_results_or_errors() {
    let mut seed = 0x9e37_79b9_7f4a_7c15u64;
    let mut next = move || {
        seed ^= seed << 13;
        seed ^= seed >> 7;
        seed ^= seed << 17;
        seed
    };
    let mut good = obu(2, &[]);
    good.extend(obu(1, &reduced_header()));
    let mut parsed = 0;
    for _ in 0..50_000 {
        let mut stream = good.clone();
        for _ in 0..1 + next() % 4 {
            let at = (next() % stream.len() as u64) as usize;
            stream[at] = next() as u8;
        }
        if let Ok(h) = parse_obu(&stream) {
            parsed += 1;
            assert!(h.max_frame_width >= 1 && h.max_frame_height >= 1);
            assert!([8, 10, 12].contains(&h.color.bit_depth));
            assert!(h.seq_profile <= 2);
        }
    }
    assert!(parsed > 0);
}
