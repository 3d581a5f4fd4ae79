//! Functionality related to registration authorities.
//!
//! A Registration Authority code is an 8-character code -- "RA" followed
//! by six decimal digits -- identifying a business registry, drawn from a
//! published registry list.  Membership is an exact string match against
//! the fixed, immutable table below; the two placeholder codes "RA888888"
//! and "RA999999" are part of the list by design.  Since every code is
//! "RA" plus six digits, the table stores only the numbers; repeated
//! entries of the source data are kept, as they do not affect membership.

use crate::{digit_char, push_char};
use vstd::arithmetic::div_mod::{
    lemma_div_denominator, lemma_div_is_ordered, lemma_div_pos_is_pos, lemma_fundamental_div_mod,
    lemma_small_mod,
};
use vstd::prelude::*;

verus! {

/// The decimal digit character for a value 0-9.
pub open spec fn decimal_digit(d: int) -> char {
    (48 + d) as char
}

/// The 8-character text of the Registration Authority code numbered `n`
/// (taken modulo one million): "RA" followed by six decimal digits,
/// zero-padded.
pub open spec fn ra_text(n: int) -> Seq<char> {
    seq![
        'R',
        'A',
        decimal_digit(n / 100000 % 10),
        decimal_digit(n / 10000 % 10),
        decimal_digit(n / 1000 % 10),
        decimal_digit(n / 100 % 10),
        decimal_digit(n / 10 % 10),
        decimal_digit(n % 10),
    ]
}

/// The codes the table holds, as 8-character sequences.
pub closed spec fn ra_codes() -> Seq<Seq<char>> {
    REGISTRATION_AUTHORITIES@.map_values(|n: u32| ra_text(n as int))
}

/// Whether `s` is a recognised Registration Authority code: exact
/// membership in the fixed table, with no case normalisation.
pub fn is(s: &str) -> (r: bool)
    ensures
        r == ra_codes().contains(s@),
{
    let mut i: usize = 0;
    while i < 737
        invariant
            0 <= i <= 737,
            forall|j: int| 0 <= j < i ==> ra_codes()[j] != s@,
        decreases 737 - i,
    {
        let code = ra_code_string(REGISTRATION_AUTHORITIES[i]);
        if str_eq(code.as_str(), s) {
            proof {
                assert(ra_codes()[i as int] == s@);
            }
            return true;
        }
        i += 1;
    }
    proof {
        assert(forall|j: int| 0 <= j < ra_codes().len() ==> ra_codes()[j] != s@);
    }
    false
}

/// The code text for a table entry: "RA" and the six decimal digits of
/// `n`, most significant first.
fn ra_code_string(n: u32) -> (s: String)
    ensures
        s@ == ra_text(n as int),
{
    let mut s = String::from_str("RA");
    push_char(&mut s, digit_char(n / 100000 % 10));
    push_char(&mut s, digit_char(n / 10000 % 10));
    push_char(&mut s, digit_char(n / 1000 % 10));
    push_char(&mut s, digit_char(n / 100 % 10));
    push_char(&mut s, digit_char(n / 10 % 10));
    push_char(&mut s, digit_char(n % 10));
    proof {
        reveal_strlit("RA");
        assert(s@ =~= ra_text(n as int));
    }
    s
}

/// Character-by-character string equality.
fn str_eq(a: &str, b: &str) -> (r: bool)
    ensures
        r == (a@ == b@),
{
    let n = a.unicode_len();
    if n != b.unicode_len() {
        return false;
    }
    let mut i: usize = 0;
    while i < n
        invariant
            n == a@.len(),
            n == b@.len(),
            0 <= i <= n,
            forall|j: int| 0 <= j < i ==> a@[j] == b@[j],
        decreases n - i,
    {
        if a.get_char(i) != b.get_char(i) {
            return false;
        }
        i += 1;
    }
    proof {
        assert(a@ =~= b@);
    }
    true
}

/// The two explicit placeholder codes are members of the table by design:
/// "RA888888" and "RA999999" head the list.
pub proof fn lemma_placeholders_are_members()
    ensures
        ra_codes().contains("RA888888"@),
        ra_codes().contains("RA999999"@),
{
    reveal_strlit("RA888888");
    reveal_strlit("RA999999");
    assert(REGISTRATION_AUTHORITIES@[0] == 888888);
    assert(REGISTRATION_AUTHORITIES@[1] == 999999);
    assert("RA888888"@ =~= ra_text(888888));
    assert("RA999999"@ =~= ra_text(999999));
    assert(ra_codes()[0] == "RA888888"@);
    assert(ra_codes()[1] == "RA999999"@);
}

/// "RA000001" is a recognised code; "RA100001" is not: no table entry
/// carries the number 100001.
pub proof fn lemma_example_membership()
    ensures
        ra_codes().contains("RA000001"@),
        !ra_codes().contains("RA100001"@),
{
    reveal_strlit("RA000001");
    assert(REGISTRATION_AUTHORITIES@[2] == 1);
    assert("RA000001"@ =~= ra_text(1));
    assert(ra_codes()[2] == "RA000001"@);
    reveal_strlit("RA100001");
    assert("RA100001"@ =~= ra_text(100001));
    assert forall|j: int| 0 <= j < ra_codes().len() implies ra_codes()[j] != "RA100001"@ by {
        let n = REGISTRATION_AUTHORITIES@[j] as int;
        assert(0 <= n < 1000000 && n != 100001);
        assert(ra_codes()[j] == ra_text(n));
        if ra_text(n) == ra_text(100001) {
            lemma_ra_text_injective(n, 100001);
        }
    }
}

/// Two equal code texts come from the same number (below one million):
/// the six digit characters pin the number down.
proof fn lemma_ra_text_injective(m: int, n: int)
    requires
        0 <= m < 1000000,
        0 <= n < 1000000,
        ra_text(m) == ra_text(n),
    ensures
        m == n,
{
    assert(ra_text(m)[2] == ra_text(n)[2]);
    assert(ra_text(m)[3] == ra_text(n)[3]);
    assert(ra_text(m)[4] == ra_text(n)[4]);
    assert(ra_text(m)[5] == ra_text(n)[5]);
    assert(ra_text(m)[6] == ra_text(n)[6]);
    assert(ra_text(m)[7] == ra_text(n)[7]);
    lemma_decimal_digit_injective(m / 100000 % 10, n / 100000 % 10);
    lemma_decimal_digit_injective(m / 10000 % 10, n / 10000 % 10);
    lemma_decimal_digit_injective(m / 1000 % 10, n / 1000 % 10);
    lemma_decimal_digit_injective(m / 100 % 10, n / 100 % 10);
    lemma_decimal_digit_injective(m / 10 % 10, n / 10 % 10);
    lemma_decimal_digit_injective(m % 10, n % 10);
    lemma_six_digits(m);
    lemma_six_digits(n);
}

/// Equal digit characters come from equal digit values.
proof fn lemma_decimal_digit_injective(a: int, b: int)
    requires
        0 <= a <= 9,
        0 <= b <= 9,
        decimal_digit(a) == decimal_digit(b),
    ensures
        a == b,
{
    assert((48 + a) as char as int == 48 + a);
    assert((48 + b) as char as int == 48 + b);
}

/// A number below one million is the weighted sum of its six decimal
/// digits.
proof fn lemma_six_digits(m: int)
    requires
        0 <= m < 1000000,
    ensures
        m == m / 100000 % 10 * 100000 + m / 10000 % 10 * 10000 + m / 1000 % 10 * 1000 + m / 100
            % 10 * 100 + m / 10 % 10 * 10 + m % 10,
{
    lemma_fundamental_div_mod(m, 10);
    lemma_div_denominator(m, 10, 10);
    lemma_fundamental_div_mod(m / 10, 10);
    lemma_div_denominator(m, 100, 10);
    lemma_fundamental_div_mod(m / 100, 10);
    lemma_div_denominator(m, 1000, 10);
    lemma_fundamental_div_mod(m / 1000, 10);
    lemma_div_denominator(m, 10000, 10);
    lemma_fundamental_div_mod(m / 10000, 10);
    lemma_div_pos_is_pos(m, 100000);
    lemma_div_is_ordered(m, 999999, 100000);
    lemma_small_mod((m / 100000) as nat, 10);
}

/// The numbers of the known codes, from the registry snapshot of
/// 2019-12-05 (list version 1.5).
const REGISTRATION_AUTHORITIES: [u32; 737] = [
    888888, 999999, 1, 2, 3, 4, 661, 5, 6, 7, 8, 9,
    10, 11, 12, 13, 14, 15, 16, 714, 17, 18, 687, 707,
    710, 725, 734, 19, 20, 21, 22, 23, 24, 25, 26, 693,
    27, 28, 29, 30, 31, 32, 33, 34, 692, 35, 62, 36,
    37, 38, 39, 681, 40, 41, 42, 43, 44, 46, 45, 47,
    48, 49, 50, 51, 52, 54, 55, 53, 56, 57, 59, 58,
    60, 61, 63, 64, 65, 66, 730, 731, 67, 68, 69, 683,
    70, 71, 73, 74, 72, 75, 76, 77, 83, 78, 84, 79,
    80, 81, 82, 85, 86, 87, 88, 89, 90, 91, 92, 94,
    95, 96, 97, 98, 99, 100, 101, 102, 103, 104, 110, 105,
    106, 107, 108, 109, 111, 136, 93, 112, 113, 114, 115, 116,
    117, 118, 119, 120, 121, 122, 123, 124, 125, 126, 127, 128,
    129, 130, 131, 132, 133, 134, 135, 137, 138, 139, 140, 141,
    142, 143, 144, 145, 146, 147, 148, 149, 150, 151, 152, 153,
    154, 156, 157, 659, 686, 695, 696, 705, 158, 159, 160, 161,
    162, 163, 164, 165, 166, 167, 168, 694, 155, 169, 170, 171,
    172, 173, 174, 175, 176, 177, 178, 691, 179, 180, 181, 182,
    183, 184, 185, 186, 187, 188, 189, 190, 192, 189, 192, 189,
    192, 193, 194, 195, 196, 197, 199, 200, 201, 202, 203, 204,
    205, 206, 207, 208, 209, 210, 213, 214, 724, 215, 704, 216,
    217, 727, 218, 219, 220, 733, 221, 222, 742, 224, 225, 226,
    227, 233, 234, 228, 229, 230, 712, 231, 232, 235, 236, 238,
    239, 247, 240, 241, 242, 243, 244, 245, 246, 253, 257, 249,
    250, 372, 373, 663, 251, 252, 255, 258, 259, 738, 260, 261,
    262, 263, 722, 266, 267, 268, 269, 271, 272, 273, 280, 281,
    274, 275, 276, 277, 278, 279, 282, 283, 290, 293, 284, 285,
    286, 287, 288, 289, 755, 291, 301, 303, 304, 305, 295, 296,
    297, 743, 298, 299, 300, 302, 311, 306, 307, 308, 309, 310,
    711, 313, 314, 315, 316, 321, 317, 319, 320, 322, 324, 325,
    737, 328, 329, 342, 331, 741, 332, 333, 334, 740, 739, 723,
    336, 337, 338, 339, 343, 344, 345, 346, 347, 348, 349, 350,
    351, 352, 736, 353, 354, 355, 356, 370, 358, 362, 363, 364,
    365, 368, 369, 371, 374, 375, 376, 377, 685, 378, 655, 379,
    189, 192, 381, 382, 383, 666, 667, 668, 384, 385, 386, 387,
    388, 389, 390, 391, 392, 656, 732, 750, 393, 394, 395, 396,
    397, 398, 399, 697, 708, 709, 713, 717, 754, 400, 680, 401,
    402, 403, 404, 700, 405, 406, 407, 408, 409, 410, 699, 411,
    412, 413, 414, 698, 415, 416, 417, 418, 519, 420, 421, 422,
    423, 424, 425, 729, 426, 427, 428, 429, 548, 430, 431, 432,
    433, 434, 435, 436, 679, 438, 440, 439, 441, 442, 443, 444,
    189, 192, 446, 447, 189, 192, 449, 682, 703, 451, 452, 453,
    454, 455, 456, 457, 458, 459, 460, 461, 462, 463, 464, 664,
    189, 192, 466, 749, 467, 468, 469, 470, 437, 471, 472, 473,
    474, 475, 476, 477, 478, 479, 480, 481, 482, 689, 483, 484,
    485, 486, 654, 487, 488, 489, 493, 494, 495, 419, 657, 658,
    497, 498, 718, 719, 720, 721, 499, 500, 189, 192, 189, 192,
    502, 503, 504, 189, 192, 189, 192, 508, 509, 510, 511, 512,
    513, 702, 514, 515, 516, 517, 518, 684, 520, 521, 522, 523,
    524, 669, 525, 526, 527, 528, 670, 671, 672, 673, 674, 675,
    676, 677, 706, 529, 530, 531, 532, 728, 533, 534, 535, 536,
    537, 538, 539, 716, 540, 541, 542, 543, 544, 545, 546, 547,
    735, 548, 549, 550, 678, 551, 552, 553, 554, 555, 556, 557,
    558, 559, 560, 561, 562, 563, 564, 565, 566, 662, 567, 568,
    569, 570, 571, 572, 573, 574, 660, 715, 575, 576, 577, 753,
    578, 579, 580, 581, 582, 583, 584, 752, 585, 589, 726, 586,
    701, 587, 590, 588, 591, 592, 593, 595, 594, 597, 596, 598,
    599, 600, 602, 601, 603, 604, 605, 607, 608, 609, 606, 610,
    611, 612, 615, 614, 613, 616, 617, 619, 618, 620, 623, 627,
    624, 625, 626, 628, 747, 621, 622, 629, 630, 631, 632, 633,
    634, 635, 636, 637, 751, 665, 744, 745, 746, 748, 638, 640,
    639, 641, 643, 642, 644, 645, 690, 646, 647, 648, 649, 189,
    192, 650, 651, 652, 653,
];




} // verus!
