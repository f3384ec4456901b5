use katas::roman_numerals::convert;

#[test]
fn it_converts_integers_to_roman_numerals() {
    let result = convert(1).unwrap();
    assert_eq!(result, "I");

    let result = convert(2).unwrap();
    assert_eq!(result, "II");

    let result = convert(5).unwrap();
    assert_eq!(result, "V");

    let result = convert(10).unwrap();
    assert_eq!(result, "X");

    let result = convert(50).unwrap();
    assert_eq!(result, "L");

    let result = convert(369).unwrap();
    assert_eq!(result, "CCCLXIX");

    let result = convert(2751).unwrap();
    assert_eq!(result, "MMDCCLI");

    let result = convert(3000).unwrap();
    assert_eq!(result, "MMM");
}

#[test]
fn it_returns_an_error_for_integers_over_3000() {
    let result = convert(3001)
        .err()
        .expect("Roman numerals only went up to 3000")
        .to_string();
    assert_eq!(result, "Roman numerals only went up to 3000");
}

#[test]
fn zero_has_the_empty_numeral() {
    assert_eq!(convert(0).unwrap(), "");
}

#[test]
fn every_units_digit_has_its_letters() {
    let letters = ["", "I", "II", "III", "IV", "V", "VI", "VII", "VIII", "IX"];
    for digit in 0..10 {
        assert_eq!(convert(digit).unwrap(), letters[digit as usize]);
    }
}

#[test]
fn every_tens_digit_has_its_letters() {
    let letters = ["", "X", "XX", "XXX", "XL", "L", "LX", "LXX", "LXXX", "XC"];
    for digit in 0..10 {
        assert_eq!(convert(digit * 10).unwrap(), letters[digit as usize]);
    }
}

#[test]
fn every_hundreds_digit_has_its_letters() {
    let letters = ["", "C", "CC", "CCC", "CD", "D", "DC", "DCC", "DCCC", "CM"];
    for digit in 0..10 {
        assert_eq!(convert(digit * 100).unwrap(), letters[digit as usize]);
    }
}

#[test]
fn the_thousands_are_written_side_by_side() {
    assert_eq!(convert(1000).unwrap(), "M");
    assert_eq!(convert(2000).unwrap(), "MM");
    assert_eq!(convert(3000).unwrap(), "MMM");
}

#[test]
fn the_places_are_written_from_the_thousands_down() {
    assert_eq!(convert(14).unwrap(), "XIV");
    assert_eq!(convert(49).unwrap(), "XLIX");
    assert_eq!(convert(99).unwrap(), "XCIX");
    assert_eq!(convert(444).unwrap(), "CDXLIV");
    assert_eq!(convert(999).unwrap(), "CMXCIX");
    assert_eq!(convert(1994).unwrap(), "MCMXCIV");
    assert_eq!(convert(2024).unwrap(), "MMXXIV");
    assert_eq!(convert(2888).unwrap(), "MMDCCCLXXXVIII");
    assert_eq!(convert(2999).unwrap(), "MMCMXCIX");
}

#[test]
fn a_numeral_reads_back_as_its_integer() {
    fn worth(letter: char) -> u32 {
        match letter {
            'I' => 1,
            'V' => 5,
            'X' => 10,
            'L' => 50,
            'C' => 100,
            'D' => 500,
            'M' => 1000,
            _ => panic!("no Roman letter: {}", letter),
        }
    }
    for number in 0..=3000 {
        let numeral: Vec<char> = convert(number).unwrap().chars().collect();
        let mut total = 0;
        for (at, letter) in numeral.iter().enumerate() {
            let here = worth(*letter);
            if at + 1 < numeral.len() && here < worth(numeral[at + 1]) {
                total -= here as i64;
            } else {
                total += here as i64;
            }
        }
        assert_eq!(total, number as i64);
    }
}

#[test]
fn everything_over_the_largest_is_refused() {
    for number in [3001, 3002, 3999, 4000, 10000, u32::MAX] {
        assert_eq!(convert(number), Err("Roman numerals only went up to 3000"));
    }
}
