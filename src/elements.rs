use vstd::prelude::*;

verus! {

/// The number of known elements.
pub const ELEMENT_COUNT: u32 = 118;

/// The symbol of the element of atomic number `z`, for `1 <= z <= 118`
/// (empty otherwise).
pub open spec fn element_symbol(z: u32) -> Seq<char> {
    match z {
        1 => seq!['H'],
        2 => seq!['H', 'e'],
        3 => seq!['L', 'i'],
        4 => seq!['B', 'e'],
        5 => seq!['B'],
        6 => seq!['C'],
        7 => seq!['N'],
        8 => seq!['O'],
        9 => seq!['F'],
        10 => seq!['N', 'e'],
        11 => seq!['N', 'a'],
        12 => seq!['M', 'g'],
        13 => seq!['A', 'l'],
        14 => seq!['S', 'i'],
        15 => seq!['P'],
        16 => seq!['S'],
        17 => seq!['C', 'l'],
        18 => seq!['A', 'r'],
        19 => seq!['K'],
        20 => seq!['C', 'a'],
        21 => seq!['S', 'c'],
        22 => seq!['T', 'i'],
        23 => seq!['V'],
        24 => seq!['C', 'r'],
        25 => seq!['M', 'n'],
        26 => seq!['F', 'e'],
        27 => seq!['C', 'o'],
        28 => seq!['N', 'i'],
        29 => seq!['C', 'u'],
        30 => seq!['Z', 'n'],
        31 => seq!['G', 'a'],
        32 => seq!['G', 'e'],
        33 => seq!['A', 's'],
        34 => seq!['S', 'e'],
        35 => seq!['B', 'r'],
        36 => seq!['K', 'r'],
        37 => seq!['R', 'b'],
        38 => seq!['S', 'r'],
        39 => seq!['Y'],
        40 => seq!['Z', 'r'],
        41 => seq!['N', 'b'],
        42 => seq!['M', 'o'],
        43 => seq!['T', 'c'],
        44 => seq!['R', 'u'],
        45 => seq!['R', 'h'],
        46 => seq!['P', 'd'],
        47 => seq!['A', 'g'],
        48 => seq!['C', 'd'],
        49 => seq!['I', 'n'],
        50 => seq!['S', 'n'],
        51 => seq!['S', 'b'],
        52 => seq!['T', 'e'],
        53 => seq!['I'],
        54 => seq!['X', 'e'],
        55 => seq!['C', 's'],
        56 => seq!['B', 'a'],
        57 => seq!['L', 'a'],
        58 => seq!['C', 'e'],
        59 => seq!['P', 'r'],
        60 => seq!['N', 'd'],
        61 => seq!['P', 'm'],
        62 => seq!['S', 'm'],
        63 => seq!['E', 'u'],
        64 => seq!['G', 'd'],
        65 => seq!['T', 'b'],
        66 => seq!['D', 'y'],
        67 => seq!['H', 'o'],
        68 => seq!['E', 'r'],
        69 => seq!['T', 'm'],
        70 => seq!['Y', 'b'],
        71 => seq!['L', 'u'],
        72 => seq!['H', 'f'],
        73 => seq!['T', 'a'],
        74 => seq!['W'],
        75 => seq!['R', 'e'],
        76 => seq!['O', 's'],
        77 => seq!['I', 'r'],
        78 => seq!['P', 't'],
        79 => seq!['A', 'u'],
        80 => seq!['H', 'g'],
        81 => seq!['T', 'l'],
        82 => seq!['P', 'b'],
        83 => seq!['B', 'i'],
        84 => seq!['P', 'o'],
        85 => seq!['A', 't'],
        86 => seq!['R', 'n'],
        87 => seq!['F', 'r'],
        88 => seq!['R', 'a'],
        89 => seq!['A', 'c'],
        90 => seq!['T', 'h'],
        91 => seq!['P', 'a'],
        92 => seq!['U'],
        93 => seq!['N', 'p'],
        94 => seq!['P', 'u'],
        95 => seq!['A', 'm'],
        96 => seq!['C', 'm'],
        97 => seq!['B', 'k'],
        98 => seq!['C', 'f'],
        99 => seq!['E', 's'],
        100 => seq!['F', 'm'],
        101 => seq!['M', 'd'],
        102 => seq!['N', 'o'],
        103 => seq!['L', 'r'],
        104 => seq!['R', 'f'],
        105 => seq!['D', 'b'],
        106 => seq!['S', 'g'],
        107 => seq!['B', 'h'],
        108 => seq!['H', 's'],
        109 => seq!['M', 't'],
        110 => seq!['D', 's'],
        111 => seq!['R', 'g'],
        112 => seq!['C', 'n'],
        113 => seq!['N', 'h'],
        114 => seq!['F', 'l'],
        115 => seq!['M', 'c'],
        116 => seq!['L', 'v'],
        117 => seq!['T', 's'],
        118 => seq!['O', 'g'],
        _ => seq![],
    }
}

/// The characters of a symbol given as its first letter and optional second letter.
pub open spec fn letters_seq(letters: (char, Option<char>)) -> Seq<char> {
    match letters.1 {
        Some(c) => seq![letters.0, c],
        None => seq![letters.0],
    }
}

/// The letters of the symbol of the element of atomic number `z`.
fn symbol_letters(z: u32) -> (r: (char, Option<char>))
    requires
        1 <= z <= ELEMENT_COUNT,
    ensures
        letters_seq(r) == element_symbol(z),
{
    match z {
        1 => ('H', None),
        2 => ('H', Some('e')),
        3 => ('L', Some('i')),
        4 => ('B', Some('e')),
        5 => ('B', None),
        6 => ('C', None),
        7 => ('N', None),
        8 => ('O', None),
        9 => ('F', None),
        10 => ('N', Some('e')),
        11 => ('N', Some('a')),
        12 => ('M', Some('g')),
        13 => ('A', Some('l')),
        14 => ('S', Some('i')),
        15 => ('P', None),
        16 => ('S', None),
        17 => ('C', Some('l')),
        18 => ('A', Some('r')),
        19 => ('K', None),
        20 => ('C', Some('a')),
        21 => ('S', Some('c')),
        22 => ('T', Some('i')),
        23 => ('V', None),
        24 => ('C', Some('r')),
        25 => ('M', Some('n')),
        26 => ('F', Some('e')),
        27 => ('C', Some('o')),
        28 => ('N', Some('i')),
        29 => ('C', Some('u')),
        30 => ('Z', Some('n')),
        31 => ('G', Some('a')),
        32 => ('G', Some('e')),
        33 => ('A', Some('s')),
        34 => ('S', Some('e')),
        35 => ('B', Some('r')),
        36 => ('K', Some('r')),
        37 => ('R', Some('b')),
        38 => ('S', Some('r')),
        39 => ('Y', None),
        40 => ('Z', Some('r')),
        41 => ('N', Some('b')),
        42 => ('M', Some('o')),
        43 => ('T', Some('c')),
        44 => ('R', Some('u')),
        45 => ('R', Some('h')),
        46 => ('P', Some('d')),
        47 => ('A', Some('g')),
        48 => ('C', Some('d')),
        49 => ('I', Some('n')),
        50 => ('S', Some('n')),
        51 => ('S', Some('b')),
        52 => ('T', Some('e')),
        53 => ('I', None),
        54 => ('X', Some('e')),
        55 => ('C', Some('s')),
        56 => ('B', Some('a')),
        57 => ('L', Some('a')),
        58 => ('C', Some('e')),
        59 => ('P', Some('r')),
        60 => ('N', Some('d')),
        61 => ('P', Some('m')),
        62 => ('S', Some('m')),
        63 => ('E', Some('u')),
        64 => ('G', Some('d')),
        65 => ('T', Some('b')),
        66 => ('D', Some('y')),
        67 => ('H', Some('o')),
        68 => ('E', Some('r')),
        69 => ('T', Some('m')),
        70 => ('Y', Some('b')),
        71 => ('L', Some('u')),
        72 => ('H', Some('f')),
        73 => ('T', Some('a')),
        74 => ('W', None),
        75 => ('R', Some('e')),
        76 => ('O', Some('s')),
        77 => ('I', Some('r')),
        78 => ('P', Some('t')),
        79 => ('A', Some('u')),
        80 => ('H', Some('g')),
        81 => ('T', Some('l')),
        82 => ('P', Some('b')),
        83 => ('B', Some('i')),
        84 => ('P', Some('o')),
        85 => ('A', Some('t')),
        86 => ('R', Some('n')),
        87 => ('F', Some('r')),
        88 => ('R', Some('a')),
        89 => ('A', Some('c')),
        90 => ('T', Some('h')),
        91 => ('P', Some('a')),
        92 => ('U', None),
        93 => ('N', Some('p')),
        94 => ('P', Some('u')),
        95 => ('A', Some('m')),
        96 => ('C', Some('m')),
        97 => ('B', Some('k')),
        98 => ('C', Some('f')),
        99 => ('E', Some('s')),
        100 => ('F', Some('m')),
        101 => ('M', Some('d')),
        102 => ('N', Some('o')),
        103 => ('L', Some('r')),
        104 => ('R', Some('f')),
        105 => ('D', Some('b')),
        106 => ('S', Some('g')),
        107 => ('B', Some('h')),
        108 => ('H', Some('s')),
        109 => ('M', Some('t')),
        110 => ('D', Some('s')),
        111 => ('R', Some('g')),
        112 => ('C', Some('n')),
        113 => ('N', Some('h')),
        114 => ('F', Some('l')),
        115 => ('M', Some('c')),
        116 => ('L', Some('v')),
        117 => ('T', Some('s')),
        _ => ('O', Some('g')),
    }
}

/// The atomic number of the element whose symbol is `symbol`, or `None`
/// where no element has that symbol.
pub fn atomic_number(symbol: &str) -> (r: Option<u32>)
    ensures
        match r {
            Some(z) => 1 <= z <= ELEMENT_COUNT && element_symbol(z) == symbol@
                && forall|y: u32| 1 <= y < z ==> element_symbol(y) != symbol@,
            None => forall|y: u32| 1 <= y <= ELEMENT_COUNT ==> element_symbol(y) != symbol@,
        },
{
    let len = symbol.unicode_len();
    if len == 0 || len > 2 {
        assert forall|y: u32| 1 <= y <= ELEMENT_COUNT implies element_symbol(y) != symbol@ by {
            assert(element_symbol(y).len() == 1 || element_symbol(y).len() == 2);
        }
        return None;
    }
    let first = symbol.get_char(0);
    let second = if len == 2 {
        Some(symbol.get_char(1))
    } else {
        None
    };
    assert(letters_seq((first, second)) =~= symbol@);
    let mut z: u32 = 1;
    while z <= ELEMENT_COUNT
        invariant
            1 <= z <= ELEMENT_COUNT + 1,
            letters_seq((first, second)) == symbol@,
            forall|y: u32| 1 <= y < z ==> element_symbol(y) != symbol@,
        decreases ELEMENT_COUNT + 1 - z,
    {
        let letters = symbol_letters(z);
        if letters.0 == first && letters.1 == second {
            return Some(z);
        }
        proof {
            if element_symbol(z) == symbol@ {
                let a = letters_seq(letters);
                let b = letters_seq((first, second));
                assert(a[0] == b[0]);
                assert(a.len() == b.len());
                if a.len() == 2 {
                    assert(a[1] == b[1]);
                }
            }
        }
        z = z + 1;
    }
    None
}

} // verus!
