//! Files and ranks are indexes 0..8; file a and rank 1 are 0.

use vstd::prelude::*;

verus! {

pub type File = usize;

pub type Rank = usize;

pub struct RankUtils;

/// Is `c` a rank digit `1`..`8`?
pub open spec fn is_rank_char(c: char) -> bool {
    '1' <= c <= '8'
}

/// The rank index a digit stands for.
pub open spec fn rank_of_char(c: char) -> int {
    c as int - '1' as int
}

/// The digit for a rank index.
pub open spec fn rank_char(r: int) -> char {
    if r == 0 {
        '1'
    } else if r == 1 {
        '2'
    } else if r == 2 {
        '3'
    } else if r == 3 {
        '4'
    } else if r == 4 {
        '5'
    } else if r == 5 {
        '6'
    } else if r == 6 {
        '7'
    } else {
        '8'
    }
}

impl RankUtils {
    pub const SIZE: usize = 8;

    /// The rank index a digit stands for.
    pub fn from_char(value: char) -> (r: Rank)
        requires
            is_rank_char(value),
        ensures
            r == rank_of_char(value),
            r < 8,
    {
        match value {
            '1' => 0,
            '2' => 1,
            '3' => 2,
            '4' => 3,
            '5' => 4,
            '6' => 5,
            '7' => 6,
            '8' => 7,
            _ => vstd::pervasive::unreached(),
        }
    }

    /// The digit for a rank index.
    pub fn to_char(value: Rank) -> (r: char)
        requires
            value < 8,
        ensures
            r == rank_char(value as int),
    {
        match value {
            0 => '1',
            1 => '2',
            2 => '3',
            3 => '4',
            4 => '5',
            5 => '6',
            6 => '7',
            7 => '8',
            _ => vstd::pervasive::unreached(),
        }
    }
}

pub struct FileUtils;

/// Is `c` a file letter `a`..`h`?
pub open spec fn is_file_char(c: char) -> bool {
    'a' <= c <= 'h'
}

/// The file index a letter stands for.
pub open spec fn file_of_char(c: char) -> int {
    c as int - 'a' as int
}

/// The letter for a file index.
pub open spec fn file_char(f: int) -> char {
    if f == 0 {
        'a'
    } else if f == 1 {
        'b'
    } else if f == 2 {
        'c'
    } else if f == 3 {
        'd'
    } else if f == 4 {
        'e'
    } else if f == 5 {
        'f'
    } else if f == 6 {
        'g'
    } else {
        'h'
    }
}

impl FileUtils {
    pub const SIZE: usize = 8;

    /// The file index a letter stands for.
    pub fn from_char(value: char) -> (r: File)
        requires
            is_file_char(value),
        ensures
            r == file_of_char(value),
            r < 8,
    {
        match value {
            'a' => 0,
            'b' => 1,
            'c' => 2,
            'd' => 3,
            'e' => 4,
            'f' => 5,
            'g' => 6,
            'h' => 7,
            _ => vstd::pervasive::unreached(),
        }
    }

    /// The letter for a file index.
    pub fn to_char(value: File) -> (r: char)
        requires
            value < 8,
        ensures
            r == file_char(value as int),
    {
        match value {
            0 => 'a',
            1 => 'b',
            2 => 'c',
            3 => 'd',
            4 => 'e',
            5 => 'f',
            6 => 'g',
            7 => 'h',
            _ => vstd::pervasive::unreached(),
        }
    }
}

} // verus!
