//! Gamma mapping from 8-bit framebuffer samples to 10-bit drive durations.
use vstd::prelude::*;

verus! {

/// Largest drive duration that the gamma table produces.
pub const GAMMA_MAX: u16 = 1023;

/// Gamma lookup table, 8-bit input to 10-bit output.
///
/// Entry `i` is `round(1023 * (i / 255)^3)`.
pub const GAMMA: [u16; 256] = [
       0,    0,    0,    0,    0,    0,    0,    0,    0,    0,    0,
       0,    0,    0,    0,    0,    0,    0,    0,    0,    0,    1,
       1,    1,    1,    1,    1,    1,    1,    2,    2,    2,    2,
       2,    2,    3,    3,    3,    3,    4,    4,    4,    5,    5,
       5,    6,    6,    6,    7,    7,    8,    8,    9,    9,   10,
      10,   11,   11,   12,   13,   13,   14,   15,   15,   16,   17,
      18,   19,   19,   20,   21,   22,   23,   24,   25,   26,   27,
      28,   29,   30,   32,   33,   34,   35,   37,   38,   39,   41,
      42,   43,   45,   46,   48,   50,   51,   53,   55,   56,   58,
      60,   62,   64,   65,   67,   69,   71,   73,   76,   78,   80,
      82,   84,   87,   89,   91,   94,   96,   99,  101,  104,  107,
     109,  112,  115,  118,  120,  123,  126,  129,  132,  136,  139,
     142,  145,  148,  152,  155,  159,  162,  166,  169,  173,  177,
     180,  184,  188,  192,  196,  200,  204,  208,  212,  217,  221,
     225,  230,  234,  239,  243,  248,  253,  257,  262,  267,  272,
     277,  282,  287,  293,  298,  303,  308,  314,  319,  325,  331,
     336,  342,  348,  354,  360,  366,  372,  378,  384,  391,  397,
     403,  410,  417,  423,  430,  437,  444,  450,  457,  465,  472,
     479,  486,  494,  501,  509,  516,  524,  532,  539,  547,  555,
     563,  571,  580,  588,  596,  605,  613,  622,  630,  639,  648,
     657,  666,  675,  684,  693,  703,  712,  722,  731,  741,  751,
     760,  770,  780,  791,  801,  811,  821,  832,  842,  853,  864,
     874,  885,  896,  907,  918,  930,  941,  952,  964,  976,  987,
     999, 1011, 1023,
];

/// The table's entry for sample `i`.
pub open spec fn gamma(i: int) -> u16 {
    GAMMA@[i]
}

/// Look up the drive duration for one 8-bit sample.
pub fn gamma_lookup(sample: u8) -> (r: u16)
    ensures
        r == gamma(sample as int),
{
    GAMMA[sample as usize]
}

/// The entries of the table from `i` on never decrease from one to the next.
spec fn ascending_from(i: int) -> bool
    decreases 255 - i,
{
    if 0 <= i < 255 {
        gamma(i) <= gamma(i + 1) && ascending_from(i + 1)
    } else {
        true
    }
}

proof fn lemma_ascending_steps()
    ensures
        forall|i: int| 0 <= i < 255 ==> #[trigger] gamma(i) <= gamma(i + 1),
{
    reveal_with_fuel(ascending_from, 33);
    assert(ascending_from(224));
    assert(ascending_from(192));
    assert(ascending_from(160));
    assert(ascending_from(128));
    assert(ascending_from(96));
    assert(ascending_from(64));
    assert(ascending_from(32));
    assert(ascending_from(0));
    assert forall|i: int| 0 <= i < 255 implies #[trigger] gamma(i) <= gamma(i + 1) by {
        lemma_ascending_at(0, i);
    }
}

proof fn lemma_ascending_at(k: int, i: int)
    requires
        0 <= k <= i < 255,
        ascending_from(k),
    ensures
        gamma(i) <= gamma(i + 1),
    decreases i - k,
{
    if k < i {
        lemma_ascending_at(k + 1, i);
    }
}

/// The gamma table is non-decreasing: a brighter sample never maps to a
/// shorter drive duration.
pub proof fn lemma_gamma_monotonic(i: int, j: int)
    requires
        0 <= i <= j < 256,
    ensures
        gamma(i) <= gamma(j),
    decreases j - i,
{
    lemma_ascending_steps();
    if i < j {
        lemma_gamma_monotonic(i, j - 1);
    }
}

/// Every entry of the table fits in ten bits.
pub proof fn lemma_gamma_bounded(i: int)
    requires
        0 <= i < 256,
    ensures
        gamma(i) <= GAMMA_MAX,
{
    lemma_gamma_monotonic(i, 255);
}

} // verus!
