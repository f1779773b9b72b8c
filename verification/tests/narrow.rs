use rand::RngCore;
use tinymt::tinymt32::{
  tinymt32_generate_uint32, tinymt32_get_mexp, tinymt32_init, tinymt32_init_by_array,
  tinymt32_next_state, tinymt32_temper, tinymt32_temper_conv_bits, tinymt32_temper_conv_open_bits,
  tinymt32_temper_fraction,
};
use tinymt::TinyMT32;

const TINYMT32_MUL: f64 = 1.0f64 / 16_777_216.0_f64;

/// floating point number r (1.0 <= r < 2.0)
fn tinymt32_temper_conv(random: &mut TinyMT32) -> f32 {
  f32::from_bits(tinymt32_temper_conv_bits(random))
}

/// floating point number r (1.0 < r < 2.0)
fn tinymt32_temper_conv_open(random: &mut TinyMT32) -> f32 {
  f32::from_bits(tinymt32_temper_conv_open_bits(random))
}

/// floating point number r (0.0 <= r < 1.0)
fn tinymt32_generate_float(random: &mut TinyMT32) -> f32 {
  tinymt32_next_state(random);
  (tinymt32_temper_fraction(random) as f64 * TINYMT32_MUL) as f32
}

/// floating point number r (1.0 <= r < 2.0)
fn tinymt32_generate_float12(random: &mut TinyMT32) -> f32 {
  tinymt32_next_state(random);
  tinymt32_temper_conv(random)
}

/// floating point number r (0.0 <= r < 1.0)
fn tinymt32_generate_float01(random: &mut TinyMT32) -> f32 {
  tinymt32_next_state(random);
  tinymt32_temper_conv(random) - 1.0f32
}

/// floating point number r (0.0 < r <= 1.0)
fn tinymt32_generate_float_oc(random: &mut TinyMT32) -> f32 {
  tinymt32_next_state(random);
  1.0f32 - tinymt32_generate_float(random)
}

/// floating point number r (0.0 < r < 1.0)
fn tinymt32_generate_float_oo(random: &mut TinyMT32) -> f32 {
  tinymt32_next_state(random);
  tinymt32_temper_conv_open(random) - 1.0f32
}

/// floating point number r (0.0 <= r < 1.0)
fn tinymt32_generate_32double(random: &mut TinyMT32) -> f64 {
  tinymt32_next_state(random);
  tinymt32_temper(random) as f64 * (1.0f64 / 4_294_967_296.0_f64)
}

fn sample() -> TinyMT32 {
  TinyMT32::new([0, 0, 0, 0], 0x8f7011ee, 0xfc78ff1f, 0x3793fdff)
}

/// Known sequences of the parameter set 0x8f7011ee 0xfc78ff1f 0x3793fdff.
#[test]
fn test_cases_by_author() {
  // tinymt32 0x8f7011ee 0xfc78ff1f 0x3793fdff seed = 1
  let mut tinymt = TinyMT32::new([0, 0, 0, 0], 0x8f7011ee, 0xfc78ff1f, 0x3793fdff);
  let seed = 1;
  tinymt32_init(&mut tinymt, seed);

  test_generate_uint32(&mut tinymt);

  // init_by_array {1}
  let seed_array: [u32; 1] = [1];
  tinymt32_init_by_array(&mut tinymt, &seed_array);

  test_generate_float(&mut tinymt);
  test_generate_float12(&mut tinymt);
  test_generate_float_oc(&mut tinymt);
  test_generate_float_oo(&mut tinymt);
  test_generate_32double(&mut tinymt);
}

/// 32-bit unsigned integers r, where 0 <= r < 2^32
fn test_generate_uint32(tinymt: &mut TinyMT32) {
  let expected = [
    [2545341989, 981918433, 3715302833, 2387538352, 3591001365],
    [3820442102, 2114400566, 2196103051, 2783359912, 764534509],
    [643179475, 1822416315, 881558334, 4207026366, 3690273640],
    [3240535687, 2921447122, 3984931427, 4092394160, 44209675],
    [2188315343, 2908663843, 1834519336, 3774670961, 3019990707],
    [4065554902, 1239765502, 4035716197, 3412127188, 552822483],
    [161364450, 353727785, 140085994, 149132008, 2547770827],
    [4064042525, 4078297538, 2057335507, 622384752, 2041665899],
    [2193913817, 1080849512, 33160901, 662956935, 642999063],
    [3384709977, 1723175122, 3866752252, 521822317, 2292524454],
  ];
  for i in 0..10 {
    for j in 0..5 {
      assert_eq!(expected[i][j], tinymt32_generate_uint32(tinymt));
    }
  }
}

// float numbers r, where 0.0 <= r < 1.0
fn test_generate_float(tinymt: &mut TinyMT32) {
  let expected = [
    [0.0132459, 0.2083899, 0.1457998, 0.1144078, 0.6173239],
    [0.0522397, 0.9873815, 0.1503184, 0.4039059, 0.6909348],
    [0.0908061, 0.0637298, 0.5002118, 0.1056944, 0.0936889],
    [0.0609041, 0.0725737, 0.7802556, 0.8761556, 0.5714422],
    [0.1706455, 0.4046335, 0.4131218, 0.2825145, 0.8249400],
    [0.4180385, 0.2152816, 0.4346161, 0.4916836, 0.5997444],
    [0.9118822, 0.1928336, 0.7523277, 0.9890286, 0.7421532],
    [0.9053972, 0.3542482, 0.9161059, 0.1209783, 0.8205475],
    [0.8592415, 0.8379903, 0.6638085, 0.8796422, 0.8608698],
    [0.9255103, 0.6475281, 0.7260162, 0.8757523, 0.0845953],
  ];
  for i in 0..10 {
    for j in 0..5 {
      let actual = tinymt32_generate_float(tinymt);
      assert_eq!(format!("{:.7}", expected[i][j]), format!("{:.7}", actual));
    }
  }
}

// float numbers r, where 1.0 <= r < 2.0
fn test_generate_float12(tinymt: &mut TinyMT32) {
  let expected = [
    [1.6180767, 1.8378111, 1.7666160, 1.2583882, 1.6962934],
    [1.6468527, 1.8065972, 1.5554585, 1.4074975, 1.0875973],
    [1.9197918, 1.4574956, 1.6669209, 1.8137155, 1.3395888],
    [1.7431080, 1.0419986, 1.7254776, 1.8457749, 1.7100438],
    [1.9055752, 1.1819330, 1.8549275, 1.9305544, 1.1244931],
    [1.2847148, 1.8663290, 1.4107596, 1.1664802, 1.1365448],
    [1.4102769, 1.9013107, 1.9665589, 1.2195582, 1.7036947],
    [1.3244984, 1.3074670, 1.4314530, 1.3307399, 1.4553448],
    [1.2322005, 1.3248408, 1.6282554, 1.6237093, 1.9553823],
    [1.2515985, 1.2902025, 1.8261194, 1.7116343, 1.0828516],
  ];
  for i in 0..10 {
    for j in 0..5 {
      let actual = tinymt32_generate_float12(tinymt);
      assert_eq!(format!("{:.7}", expected[i][j]), format!("{:.7}", actual));
    }
  }
}

// float numbers r, where 0.0 < r <= 1.0
fn test_generate_float_oc(tinymt: &mut TinyMT32) {
  let expected = [
    [0.4334422, 0.1254190, 0.9491148, 0.7561387, 0.5671672],
    [0.8243424, 0.0393196, 0.3985791, 0.4224766, 0.6121919],
    [0.5195524, 0.0341858, 0.3006201, 0.9415598, 0.1908746],
    [0.6455914, 0.9965364, 0.3110815, 0.4033393, 0.9034473],
    [0.0202459, 0.6251086, 0.2076811, 0.1991719, 0.0160369],
    [0.5703404, 0.8151199, 0.9348064, 0.9298607, 0.6834633],
    [0.2357914, 0.6382589, 0.0393693, 0.4783188, 0.4688579],
    [0.2675911, 0.4227387, 0.2752262, 0.7581965, 0.3906184],
    [0.6015150, 0.4173800, 0.2261215, 0.5006371, 0.2059622],
    [0.1784128, 0.4403929, 0.5902822, 0.2307619, 0.4184512],
  ];
  for i in 0..10 {
    for j in 0..5 {
      let actual = tinymt32_generate_float_oc(tinymt);
      assert_eq!(format!("{:.7}", expected[i][j]), format!("{:.7}", actual));
    }
  }
}

// float numbers r, where 0.0 < r < 1.0
fn test_generate_float_oo(tinymt: &mut TinyMT32) {
  let expected = [
    [0.7539235, 0.5481223, 0.0172182, 0.3837644, 0.5756599],
    [0.1929101, 0.6351088, 0.1388987, 0.2030107, 0.5359520],
    [0.7981051, 0.8822426, 0.5865937, 0.9584194, 0.9073082],
    [0.6073984, 0.8127722, 0.7480494, 0.9829172, 0.6296896],
    [0.2040328, 0.0169488, 0.5349101, 0.7498616, 0.4206887],
    [0.4468912, 0.6781071, 0.5027536, 0.4000009, 0.2352458],
    [0.3784646, 0.8087858, 0.3579344, 0.6030601, 0.2197810],
    [0.9718446, 0.5287687, 0.7941138, 0.9504710, 0.3413824],
    [0.1003662, 0.8295220, 0.6224557, 0.9157780, 0.4195939],
    [0.2126821, 0.8094529, 0.1176151, 0.1643153, 0.2755433],
  ];
  for i in 0..10 {
    for j in 0..5 {
      let actual = tinymt32_generate_float_oo(tinymt);
      assert_eq!(format!("{:.7}", expected[i][j]), format!("{:.7}", actual));
    }
  }
}

// 32-bit precision double numbers r, where 0.0 <= r < 1.0
fn test_generate_32double(tinymt: &mut TinyMT32) {
  let expected = [
    [0.4094066, 0.4827545, 0.5979867, 0.2170185, 0.8970369],
    [0.6829838, 0.3973019, 0.2750306, 0.1092794, 0.8370101],
    [0.6354089, 0.5781288, 0.7005250, 0.2332346, 0.8395586],
    [0.3070853, 0.3678428, 0.6112665, 0.9327284, 0.7354169],
    [0.5996112, 0.7402635, 0.1835579, 0.5796655, 0.9021798],
    [0.7528325, 0.0600313, 0.4967926, 0.1992569, 0.6572806],
    [0.9061203, 0.4460495, 0.3509606, 0.9238296, 0.5796654],
    [0.6424482, 0.9554131, 0.5053623, 0.9762550, 0.5047233],
    [0.6132142, 0.2425692, 0.9836005, 0.5532928, 0.4105124],
    [0.5009801, 0.8399252, 0.7654016, 0.6735107, 0.8542220],
  ];
  for i in 0..10 {
    for j in 0..5 {
      let actual = tinymt32_generate_32double(tinymt);
      assert_eq!(format!("{:.7}", expected[i][j]), format!("{:.7}", actual));
    }
  }
}


#[test]
fn known_answers_scalar_seed() {
  let mut tinymt = sample();
  tinymt32_init(&mut tinymt, 1);
  let expected: [u32; 5] = [2545341989, 981918433, 3715302833, 2387538352, 3591001365];
  for e in expected {
    assert_eq!(e, tinymt32_generate_uint32(&mut tinymt));
  }
}

#[test]
fn init_sets_the_documented_state() {
  let mut tinymt = sample();
  tinymt32_init(&mut tinymt, 1);
  assert_eq!([214574296, 297425621, 4074426437, 3646805938], tinymt.status());
  assert_eq!(0x8f7011ee, tinymt.mat1());
  assert_eq!(0xfc78ff1f, tinymt.mat2());
  assert_eq!(0x3793fdff, tinymt.tmat());
}

#[test]
fn init_ignores_the_previous_state() {
  let mut a = TinyMT32::new([9, 9, 9, 9], 0x8f7011ee, 0xfc78ff1f, 0x3793fdff);
  let mut b = sample();
  tinymt32_init(&mut a, 77);
  tinymt32_init(&mut b, 77);
  assert_eq!(a, b);
  tinymt32_init_by_array(&mut a, &[5, 6]);
  let mut c = sample();
  tinymt32_init_by_array(&mut c, &[5, 6]);
  assert_eq!(a, c);
}

#[test]
fn known_answers_array_seed() {
  let mut tinymt = sample();
  tinymt32_init_by_array(&mut tinymt, &[1]);
  assert_eq!([4116874146, 3471376663, 377710364, 140610861], tinymt.status());
  let expected: [u32; 5] = [56890874, 895028026, 626205227, 491377950, 2651386131];
  for e in expected {
    assert_eq!(e, tinymt32_generate_uint32(&mut tinymt));
  }
}

#[test]
fn array_seed_of_any_length() {
  let mut tinymt = sample();
  tinymt32_init_by_array(&mut tinymt, &[]);
  let expected: [u32; 3] = [2918194572, 3664207663, 95291729];
  for e in expected {
    assert_eq!(e, tinymt32_generate_uint32(&mut tinymt));
  }

  let key: [u32; 10] = [1, 2, 3, 4, 5, 6, 7, 8, 9, 10];
  tinymt32_init_by_array(&mut tinymt, &key);
  let expected: [u32; 3] = [1416660457, 3121576624, 970081657];
  for e in expected {
    assert_eq!(e, tinymt32_generate_uint32(&mut tinymt));
  }

  let key: [u32; 9] = [u32::MAX; 9];
  tinymt32_init_by_array(&mut tinymt, &key);
  let expected: [u32; 3] = [3399396771, 4235168979, 3137741370];
  for e in expected {
    assert_eq!(e, tinymt32_generate_uint32(&mut tinymt));
  }
}

#[test]
fn array_seed_differs_from_scalar_seed() {
  let mut by_array = sample();
  tinymt32_init_by_array(&mut by_array, &[1]);
  let mut by_scalar = sample();
  tinymt32_init(&mut by_scalar, 1);
  assert_ne!(by_array, by_scalar);
}

#[test]
fn next_state_on_given_words() {
  let mut tinymt = TinyMT32::new([1, 2, 3, 4], 0x8f7011ee, 0xfc78ff1f, 0x3793fdff);
  tinymt32_next_state(&mut tinymt);
  assert_eq!([2, 3, 6144, 6], tinymt.status());
  assert_eq!(28, tinymt32_temper(&mut tinymt));
  assert_eq!([2, 3, 6144, 6], tinymt.status());

  // the low bit of the mixed word is set: both parameters are folded in
  let mut tinymt = TinyMT32::new([0, 0, 0, 1], 0x8f7011ee, 0xfc78ff1f, 0x3793fdff);
  tinymt32_next_state(&mut tinymt);
  assert_eq!([0, 2406486510, 4235787039, 1], tinymt.status());
  assert_eq!(930055429, tinymt32_temper(&mut tinymt));
}

#[test]
fn top_bit_of_first_word_is_no_state() {
  let mut tinymt = TinyMT32::new([0x80000000, 0, 0, 0], 0x8f7011ee, 0xfc78ff1f, 0x3793fdff);
  tinymt32_next_state(&mut tinymt);
  assert_eq!([0, 0, 0, 0], tinymt.status());
  assert_eq!(0, tinymt32_temper(&mut tinymt));
}

#[test]
fn generate_is_step_then_temper() {
  let mut a = sample();
  tinymt32_init(&mut a, 1);
  let mut b = a;
  let word: u32 = tinymt32_generate_uint32(&mut a);
  tinymt32_next_state(&mut b);
  assert_eq!([297425621, 2108342699, 4290625991, 2232209075], b.status());
  assert_eq!(word, tinymt32_temper(&mut b));
  assert_eq!(a, b);
}

#[test]
fn bit_patterns_of_the_float_outputs() {
  let mut tinymt = sample();
  tinymt32_init(&mut tinymt, 1);
  tinymt32_next_state(&mut tinymt);
  assert_eq!(2545341989, tinymt32_temper(&mut tinymt));
  assert_eq!(0x3fcbdb6b, tinymt32_temper_conv_bits(&mut tinymt));
  assert_eq!(0x3fcbdb6b, tinymt32_temper_conv_open_bits(&mut tinymt));
  assert_eq!(9942742, tinymt32_temper_fraction(&mut tinymt));

  let mut zero = TinyMT32::new([0, 0, 0, 0], 0, 0, 0);
  assert_eq!(0x3f800000, tinymt32_temper_conv_bits(&mut zero));
  assert_eq!(0x3f800001, tinymt32_temper_conv_open_bits(&mut zero));
  assert_eq!(0, tinymt32_temper_fraction(&mut zero));
  assert_eq!(1.0f32, tinymt32_temper_conv(&mut zero));
  assert!(tinymt32_temper_conv_open(&mut zero) > 1.0f32);
}

#[test]
fn float_outputs_stay_in_their_intervals() {
  let mut tinymt = sample();
  tinymt32_init(&mut tinymt, 20260101);
  for _ in 0..10000 {
    let v: f32 = tinymt32_generate_float(&mut tinymt);
    assert!(0.0 <= v && v < 1.0);
    let v: f32 = tinymt32_generate_float12(&mut tinymt);
    assert!(1.0 <= v && v < 2.0);
    let v: f32 = tinymt32_generate_float01(&mut tinymt);
    assert!(0.0 <= v && v < 1.0);
    let v: f32 = tinymt32_generate_float_oc(&mut tinymt);
    assert!(0.0 < v && v <= 1.0);
    let v: f32 = tinymt32_generate_float_oo(&mut tinymt);
    assert!(0.0 < v && v < 1.0);
    let v: f64 = tinymt32_generate_32double(&mut tinymt);
    assert!(0.0 <= v && v < 1.0);
  }
}

#[test]
fn same_seed_same_sequence() {
  let mut a = sample();
  let mut b = sample();
  tinymt32_init(&mut a, 4711);
  tinymt32_init(&mut b, 4711);
  for _ in 0..1000 {
    assert_eq!(tinymt32_generate_uint32(&mut a), tinymt32_generate_uint32(&mut b));
  }
  assert_eq!(a, b);
  let mut copy = a;
  assert_eq!(tinymt32_generate_uint32(&mut a), tinymt32_generate_uint32(&mut copy));
}

#[test]
fn state_is_never_all_zero_after_init() {
  let seeds: [u32; 5] = [0, 1, 0x7fffffff, 0x80000000, u32::MAX];
  for seed in seeds {
    let mut tinymt = TinyMT32::new([0, 0, 0, 0], 0, 0, 0);
    tinymt32_init(&mut tinymt, seed);
    let s: [u32; 4] = tinymt.status();
    assert!(s[0] & 0x7fffffff != 0 || s[1] != 0 || s[2] != 0 || s[3] != 0);
    for _ in 0..100 {
      tinymt32_next_state(&mut tinymt);
      let s: [u32; 4] = tinymt.status();
      assert!(s[0] & 0x7fffffff != 0 || s[1] != 0 || s[2] != 0 || s[3] != 0);
    }
    tinymt32_init_by_array(&mut tinymt, &[seed]);
    let s: [u32; 4] = tinymt.status();
    assert!(s[0] & 0x7fffffff != 0 || s[1] != 0 || s[2] != 0 || s[3] != 0);
  }
  assert_eq!([2841013884, 1835106831, 2575802432, 1391009293], TinyMT32::from_seed_u32(0).status());
}

#[test]
fn degenerate_mix_is_replaced_by_the_marker_words() {
  // seed and parameters that the seven mixing rounds take to the all-zero state
  let mut tinymt = TinyMT32::new([0, 0, 0, 0], 0x90de5650, 0x1c25aefd, 0x882d3866);
  tinymt32_init(&mut tinymt, 0xf434c1c7);
  let mut marker = TinyMT32::new([0x54, 0x49, 0x4e, 0x59], 0x90de5650, 0x1c25aefd, 0x882d3866);
  for _ in 0..8 {
    tinymt32_next_state(&mut marker);
  }
  assert_eq!(marker, tinymt);
  assert_eq!([32453303, 324753543, 86957853, 155057871], tinymt.status());
  let expected: [u32; 3] = [645896011, 2187177703, 2710960789];
  for e in expected {
    assert_eq!(e, tinymt32_generate_uint32(&mut tinymt));
  }

  // the same with only the unused top bit left standing
  let mut tinymt = TinyMT32::new([0, 0, 0, 0], 0xb0e27bd0, 0x3aa4a94e, 0x882d3866);
  tinymt32_init(&mut tinymt, 0x7434c1c7);
  assert_eq!([2290311442, 2140963485, 3116679986, 882506093], tinymt.status());
}

#[test]
fn mexp_is_127() {
  assert_eq!(127, tinymt32_get_mexp(&sample()));
}

#[test]
fn from_seed_u32_uses_zero_parameters() {
  let mut tinymt = TinyMT32::from_seed_u32(1234567890);
  assert_eq!([1650140804, 81160318, 3393228579, 685303026], tinymt.status());
  assert_eq!(0, tinymt.mat1());
  assert_eq!(0, tinymt.mat2());
  assert_eq!(0, tinymt.tmat());
  let expected: [u32; 3] = [3434527392, 3056423072, 3206258940];
  for e in expected {
    assert_eq!(e, tinymt.next_u32());
  }
}

#[test]
fn next_u64_joins_two_words_high_first() {
  let mut tinymt = TinyMT32::from_seed_u32(1234567890);
  assert_eq!(14751182828912595104, tinymt.next_u64());
  assert_eq!(3206258940, tinymt.next_u32());
}

#[test]
fn fill_bytes_is_the_little_endian_word_stream() {
  let mut tinymt = TinyMT32::from_seed_u32(1234567890);
  let mut buffer = [0u8; 10];
  tinymt.fill_bytes(&mut buffer);
  assert_eq!([160, 186, 182, 204, 160, 80, 45, 182, 252, 160], buffer);

  for n in 0..40usize {
    let mut words = TinyMT32::from_seed_u32(99);
    let mut stream: Vec<u8> = Vec::new();
    for _ in 0..(n + 3) / 4 {
      stream.extend_from_slice(&words.next_u32().to_le_bytes());
    }
    let mut bytes = TinyMT32::from_seed_u32(99);
    let mut buffer: Vec<u8> = vec![0; n];
    bytes.fill_bytes(&mut buffer);
    assert_eq!(&stream[..n], &buffer[..]);
    assert_eq!(words, bytes);
    let mut again = TinyMT32::from_seed_u32(99);
    let mut second: Vec<u8> = vec![0xff; n];
    assert!(again.try_fill_bytes(&mut second).is_ok());
    assert_eq!(buffer, second);
    assert_eq!(bytes, again);
  }
}
