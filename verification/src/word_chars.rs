use vstd::prelude::*;

verus! {

pub open spec fn word_part_0(u: u32) -> bool {
    ||| (0x30 <= u && u <= 0x39)
    ||| (0x41 <= u && u <= 0x5a)
    ||| (0x5f <= u && u <= 0x5f)
    ||| (0x61 <= u && u <= 0x7a)
    ||| (0xaa <= u && u <= 0xaa)
    ||| (0xb5 <= u && u <= 0xb5)
    ||| (0xba <= u && u <= 0xba)
    ||| (0xc0 <= u && u <= 0xd6)
    ||| (0xd8 <= u && u <= 0xf6)
    ||| (0xf8 <= u && u <= 0x2c1)
    ||| (0x2c6 <= u && u <= 0x2d1)
    ||| (0x2e0 <= u && u <= 0x2e4)
    ||| (0x2ec <= u && u <= 0x2ec)
    ||| (0x2ee <= u && u <= 0x2ee)
    ||| (0x300 <= u && u <= 0x374)
    ||| (0x376 <= u && u <= 0x377)
    ||| (0x37a <= u && u <= 0x37d)
    ||| (0x37f <= u && u <= 0x37f)
    ||| (0x386 <= u && u <= 0x386)
    ||| (0x388 <= u && u <= 0x38a)
    ||| (0x38c <= u && u <= 0x38c)
    ||| (0x38e <= u && u <= 0x3a1)
    ||| (0x3a3 <= u && u <= 0x3f5)
    ||| (0x3f7 <= u && u <= 0x481)
    ||| (0x483 <= u && u <= 0x52f)
    ||| (0x531 <= u && u <= 0x556)
    ||| (0x559 <= u && u <= 0x559)
    ||| (0x560 <= u && u <= 0x588)
    ||| (0x591 <= u && u <= 0x5bd)
    ||| (0x5bf <= u && u <= 0x5bf)
    ||| (0x5c1 <= u && u <= 0x5c2)
    ||| (0x5c4 <= u && u <= 0x5c5)
    ||| (0x5c7 <= u && u <= 0x5c7)
    ||| (0x5d0 <= u && u <= 0x5ea)
    ||| (0x5ef <= u && u <= 0x5f2)
    ||| (0x610 <= u && u <= 0x61a)
    ||| (0x620 <= u && u <= 0x669)
    ||| (0x66e <= u && u <= 0x6d3)
    ||| (0x6d5 <= u && u <= 0x6dc)
    ||| (0x6df <= u && u <= 0x6e8)
}

fn word_part_0_exec(u: u32) -> (r: bool)
    ensures
        r == word_part_0(u),
{
    (0x30 <= u && u <= 0x39)
    || (0x41 <= u && u <= 0x5a)
    || (0x5f <= u && u <= 0x5f)
    || (0x61 <= u && u <= 0x7a)
    || (0xaa <= u && u <= 0xaa)
    || (0xb5 <= u && u <= 0xb5)
    || (0xba <= u && u <= 0xba)
    || (0xc0 <= u && u <= 0xd6)
    || (0xd8 <= u && u <= 0xf6)
    || (0xf8 <= u && u <= 0x2c1)
    || (0x2c6 <= u && u <= 0x2d1)
    || (0x2e0 <= u && u <= 0x2e4)
    || (0x2ec <= u && u <= 0x2ec)
    || (0x2ee <= u && u <= 0x2ee)
    || (0x300 <= u && u <= 0x374)
    || (0x376 <= u && u <= 0x377)
    || (0x37a <= u && u <= 0x37d)
    || (0x37f <= u && u <= 0x37f)
    || (0x386 <= u && u <= 0x386)
    || (0x388 <= u && u <= 0x38a)
    || (0x38c <= u && u <= 0x38c)
    || (0x38e <= u && u <= 0x3a1)
    || (0x3a3 <= u && u <= 0x3f5)
    || (0x3f7 <= u && u <= 0x481)
    || (0x483 <= u && u <= 0x52f)
    || (0x531 <= u && u <= 0x556)
    || (0x559 <= u && u <= 0x559)
    || (0x560 <= u && u <= 0x588)
    || (0x591 <= u && u <= 0x5bd)
    || (0x5bf <= u && u <= 0x5bf)
    || (0x5c1 <= u && u <= 0x5c2)
    || (0x5c4 <= u && u <= 0x5c5)
    || (0x5c7 <= u && u <= 0x5c7)
    || (0x5d0 <= u && u <= 0x5ea)
    || (0x5ef <= u && u <= 0x5f2)
    || (0x610 <= u && u <= 0x61a)
    || (0x620 <= u && u <= 0x669)
    || (0x66e <= u && u <= 0x6d3)
    || (0x6d5 <= u && u <= 0x6dc)
    || (0x6df <= u && u <= 0x6e8)
}

pub open spec fn word_part_1(u: u32) -> bool {
    ||| (0x6ea <= u && u <= 0x6fc)
    ||| (0x6ff <= u && u <= 0x6ff)
    ||| (0x710 <= u && u <= 0x74a)
    ||| (0x74d <= u && u <= 0x7b1)
    ||| (0x7c0 <= u && u <= 0x7f5)
    ||| (0x7fa <= u && u <= 0x7fa)
    ||| (0x7fd <= u && u <= 0x7fd)
    ||| (0x800 <= u && u <= 0x82d)
    ||| (0x840 <= u && u <= 0x85b)
    ||| (0x860 <= u && u <= 0x86a)
    ||| (0x870 <= u && u <= 0x887)
    ||| (0x889 <= u && u <= 0x88e)
    ||| (0x897 <= u && u <= 0x8e1)
    ||| (0x8e3 <= u && u <= 0x963)
    ||| (0x966 <= u && u <= 0x96f)
    ||| (0x971 <= u && u <= 0x983)
    ||| (0x985 <= u && u <= 0x98c)
    ||| (0x98f <= u && u <= 0x990)
    ||| (0x993 <= u && u <= 0x9a8)
    ||| (0x9aa <= u && u <= 0x9b0)
    ||| (0x9b2 <= u && u <= 0x9b2)
    ||| (0x9b6 <= u && u <= 0x9b9)
    ||| (0x9bc <= u && u <= 0x9c4)
    ||| (0x9c7 <= u && u <= 0x9c8)
    ||| (0x9cb <= u && u <= 0x9ce)
    ||| (0x9d7 <= u && u <= 0x9d7)
    ||| (0x9dc <= u && u <= 0x9dd)
    ||| (0x9df <= u && u <= 0x9e3)
    ||| (0x9e6 <= u && u <= 0x9f1)
    ||| (0x9fc <= u && u <= 0x9fc)
    ||| (0x9fe <= u && u <= 0x9fe)
    ||| (0xa01 <= u && u <= 0xa03)
    ||| (0xa05 <= u && u <= 0xa0a)
    ||| (0xa0f <= u && u <= 0xa10)
    ||| (0xa13 <= u && u <= 0xa28)
    ||| (0xa2a <= u && u <= 0xa30)
    ||| (0xa32 <= u && u <= 0xa33)
    ||| (0xa35 <= u && u <= 0xa36)
    ||| (0xa38 <= u && u <= 0xa39)
    ||| (0xa3c <= u && u <= 0xa3c)
}

fn word_part_1_exec(u: u32) -> (r: bool)
    ensures
        r == word_part_1(u),
{
    (0x6ea <= u && u <= 0x6fc)
    || (0x6ff <= u && u <= 0x6ff)
    || (0x710 <= u && u <= 0x74a)
    || (0x74d <= u && u <= 0x7b1)
    || (0x7c0 <= u && u <= 0x7f5)
    || (0x7fa <= u && u <= 0x7fa)
    || (0x7fd <= u && u <= 0x7fd)
    || (0x800 <= u && u <= 0x82d)
    || (0x840 <= u && u <= 0x85b)
    || (0x860 <= u && u <= 0x86a)
    || (0x870 <= u && u <= 0x887)
    || (0x889 <= u && u <= 0x88e)
    || (0x897 <= u && u <= 0x8e1)
    || (0x8e3 <= u && u <= 0x963)
    || (0x966 <= u && u <= 0x96f)
    || (0x971 <= u && u <= 0x983)
    || (0x985 <= u && u <= 0x98c)
    || (0x98f <= u && u <= 0x990)
    || (0x993 <= u && u <= 0x9a8)
    || (0x9aa <= u && u <= 0x9b0)
    || (0x9b2 <= u && u <= 0x9b2)
    || (0x9b6 <= u && u <= 0x9b9)
    || (0x9bc <= u && u <= 0x9c4)
    || (0x9c7 <= u && u <= 0x9c8)
    || (0x9cb <= u && u <= 0x9ce)
    || (0x9d7 <= u && u <= 0x9d7)
    || (0x9dc <= u && u <= 0x9dd)
    || (0x9df <= u && u <= 0x9e3)
    || (0x9e6 <= u && u <= 0x9f1)
    || (0x9fc <= u && u <= 0x9fc)
    || (0x9fe <= u && u <= 0x9fe)
    || (0xa01 <= u && u <= 0xa03)
    || (0xa05 <= u && u <= 0xa0a)
    || (0xa0f <= u && u <= 0xa10)
    || (0xa13 <= u && u <= 0xa28)
    || (0xa2a <= u && u <= 0xa30)
    || (0xa32 <= u && u <= 0xa33)
    || (0xa35 <= u && u <= 0xa36)
    || (0xa38 <= u && u <= 0xa39)
    || (0xa3c <= u && u <= 0xa3c)
}

pub open spec fn word_part_2(u: u32) -> bool {
    ||| (0xa3e <= u && u <= 0xa42)
    ||| (0xa47 <= u && u <= 0xa48)
    ||| (0xa4b <= u && u <= 0xa4d)
    ||| (0xa51 <= u && u <= 0xa51)
    ||| (0xa59 <= u && u <= 0xa5c)
    ||| (0xa5e <= u && u <= 0xa5e)
    ||| (0xa66 <= u && u <= 0xa75)
    ||| (0xa81 <= u && u <= 0xa83)
    ||| (0xa85 <= u && u <= 0xa8d)
    ||| (0xa8f <= u && u <= 0xa91)
    ||| (0xa93 <= u && u <= 0xaa8)
    ||| (0xaaa <= u && u <= 0xab0)
    ||| (0xab2 <= u && u <= 0xab3)
    ||| (0xab5 <= u && u <= 0xab9)
    ||| (0xabc <= u && u <= 0xac5)
    ||| (0xac7 <= u && u <= 0xac9)
    ||| (0xacb <= u && u <= 0xacd)
    ||| (0xad0 <= u && u <= 0xad0)
    ||| (0xae0 <= u && u <= 0xae3)
    ||| (0xae6 <= u && u <= 0xaef)
    ||| (0xaf9 <= u && u <= 0xaff)
    ||| (0xb01 <= u && u <= 0xb03)
    ||| (0xb05 <= u && u <= 0xb0c)
    ||| (0xb0f <= u && u <= 0xb10)
    ||| (0xb13 <= u && u <= 0xb28)
    ||| (0xb2a <= u && u <= 0xb30)
    ||| (0xb32 <= u && u <= 0xb33)
    ||| (0xb35 <= u && u <= 0xb39)
    ||| (0xb3c <= u && u <= 0xb44)
    ||| (0xb47 <= u && u <= 0xb48)
    ||| (0xb4b <= u && u <= 0xb4d)
    ||| (0xb55 <= u && u <= 0xb57)
    ||| (0xb5c <= u && u <= 0xb5d)
    ||| (0xb5f <= u && u <= 0xb63)
    ||| (0xb66 <= u && u <= 0xb6f)
    ||| (0xb71 <= u && u <= 0xb71)
    ||| (0xb82 <= u && u <= 0xb83)
    ||| (0xb85 <= u && u <= 0xb8a)
    ||| (0xb8e <= u && u <= 0xb90)
    ||| (0xb92 <= u && u <= 0xb95)
}

fn word_part_2_exec(u: u32) -> (r: bool)
    ensures
        r == word_part_2(u),
{
    (0xa3e <= u && u <= 0xa42)
    || (0xa47 <= u && u <= 0xa48)
    || (0xa4b <= u && u <= 0xa4d)
    || (0xa51 <= u && u <= 0xa51)
    || (0xa59 <= u && u <= 0xa5c)
    || (0xa5e <= u && u <= 0xa5e)
    || (0xa66 <= u && u <= 0xa75)
    || (0xa81 <= u && u <= 0xa83)
    || (0xa85 <= u && u <= 0xa8d)
    || (0xa8f <= u && u <= 0xa91)
    || (0xa93 <= u && u <= 0xaa8)
    || (0xaaa <= u && u <= 0xab0)
    || (0xab2 <= u && u <= 0xab3)
    || (0xab5 <= u && u <= 0xab9)
    || (0xabc <= u && u <= 0xac5)
    || (0xac7 <= u && u <= 0xac9)
    || (0xacb <= u && u <= 0xacd)
    || (0xad0 <= u && u <= 0xad0)
    || (0xae0 <= u && u <= 0xae3)
    || (0xae6 <= u && u <= 0xaef)
    || (0xaf9 <= u && u <= 0xaff)
    || (0xb01 <= u && u <= 0xb03)
    || (0xb05 <= u && u <= 0xb0c)
    || (0xb0f <= u && u <= 0xb10)
    || (0xb13 <= u && u <= 0xb28)
    || (0xb2a <= u && u <= 0xb30)
    || (0xb32 <= u && u <= 0xb33)
    || (0xb35 <= u && u <= 0xb39)
    || (0xb3c <= u && u <= 0xb44)
    || (0xb47 <= u && u <= 0xb48)
    || (0xb4b <= u && u <= 0xb4d)
    || (0xb55 <= u && u <= 0xb57)
    || (0xb5c <= u && u <= 0xb5d)
    || (0xb5f <= u && u <= 0xb63)
    || (0xb66 <= u && u <= 0xb6f)
    || (0xb71 <= u && u <= 0xb71)
    || (0xb82 <= u && u <= 0xb83)
    || (0xb85 <= u && u <= 0xb8a)
    || (0xb8e <= u && u <= 0xb90)
    || (0xb92 <= u && u <= 0xb95)
}

pub open spec fn word_part_3(u: u32) -> bool {
    ||| (0xb99 <= u && u <= 0xb9a)
    ||| (0xb9c <= u && u <= 0xb9c)
    ||| (0xb9e <= u && u <= 0xb9f)
    ||| (0xba3 <= u && u <= 0xba4)
    ||| (0xba8 <= u && u <= 0xbaa)
    ||| (0xbae <= u && u <= 0xbb9)
    ||| (0xbbe <= u && u <= 0xbc2)
    ||| (0xbc6 <= u && u <= 0xbc8)
    ||| (0xbca <= u && u <= 0xbcd)
    ||| (0xbd0 <= u && u <= 0xbd0)
    ||| (0xbd7 <= u && u <= 0xbd7)
    ||| (0xbe6 <= u && u <= 0xbef)
    ||| (0xc00 <= u && u <= 0xc0c)
    ||| (0xc0e <= u && u <= 0xc10)
    ||| (0xc12 <= u && u <= 0xc28)
    ||| (0xc2a <= u && u <= 0xc39)
    ||| (0xc3c <= u && u <= 0xc44)
    ||| (0xc46 <= u && u <= 0xc48)
    ||| (0xc4a <= u && u <= 0xc4d)
    ||| (0xc55 <= u && u <= 0xc56)
    ||| (0xc58 <= u && u <= 0xc5a)
    ||| (0xc5d <= u && u <= 0xc5d)
    ||| (0xc60 <= u && u <= 0xc63)
    ||| (0xc66 <= u && u <= 0xc6f)
    ||| (0xc80 <= u && u <= 0xc83)
    ||| (0xc85 <= u && u <= 0xc8c)
    ||| (0xc8e <= u && u <= 0xc90)
    ||| (0xc92 <= u && u <= 0xca8)
    ||| (0xcaa <= u && u <= 0xcb3)
    ||| (0xcb5 <= u && u <= 0xcb9)
    ||| (0xcbc <= u && u <= 0xcc4)
    ||| (0xcc6 <= u && u <= 0xcc8)
    ||| (0xcca <= u && u <= 0xccd)
    ||| (0xcd5 <= u && u <= 0xcd6)
    ||| (0xcdd <= u && u <= 0xcde)
    ||| (0xce0 <= u && u <= 0xce3)
    ||| (0xce6 <= u && u <= 0xcef)
    ||| (0xcf1 <= u && u <= 0xcf3)
    ||| (0xd00 <= u && u <= 0xd0c)
    ||| (0xd0e <= u && u <= 0xd10)
}

fn word_part_3_exec(u: u32) -> (r: bool)
    ensures
        r == word_part_3(u),
{
    (0xb99 <= u && u <= 0xb9a)
    || (0xb9c <= u && u <= 0xb9c)
    || (0xb9e <= u && u <= 0xb9f)
    || (0xba3 <= u && u <= 0xba4)
    || (0xba8 <= u && u <= 0xbaa)
    || (0xbae <= u && u <= 0xbb9)
    || (0xbbe <= u && u <= 0xbc2)
    || (0xbc6 <= u && u <= 0xbc8)
    || (0xbca <= u && u <= 0xbcd)
    || (0xbd0 <= u && u <= 0xbd0)
    || (0xbd7 <= u && u <= 0xbd7)
    || (0xbe6 <= u && u <= 0xbef)
    || (0xc00 <= u && u <= 0xc0c)
    || (0xc0e <= u && u <= 0xc10)
    || (0xc12 <= u && u <= 0xc28)
    || (0xc2a <= u && u <= 0xc39)
    || (0xc3c <= u && u <= 0xc44)
    || (0xc46 <= u && u <= 0xc48)
    || (0xc4a <= u && u <= 0xc4d)
    || (0xc55 <= u && u <= 0xc56)
    || (0xc58 <= u && u <= 0xc5a)
    || (0xc5d <= u && u <= 0xc5d)
    || (0xc60 <= u && u <= 0xc63)
    || (0xc66 <= u && u <= 0xc6f)
    || (0xc80 <= u && u <= 0xc83)
    || (0xc85 <= u && u <= 0xc8c)
    || (0xc8e <= u && u <= 0xc90)
    || (0xc92 <= u && u <= 0xca8)
    || (0xcaa <= u && u <= 0xcb3)
    || (0xcb5 <= u && u <= 0xcb9)
    || (0xcbc <= u && u <= 0xcc4)
    || (0xcc6 <= u && u <= 0xcc8)
    || (0xcca <= u && u <= 0xccd)
    || (0xcd5 <= u && u <= 0xcd6)
    || (0xcdd <= u && u <= 0xcde)
    || (0xce0 <= u && u <= 0xce3)
    || (0xce6 <= u && u <= 0xcef)
    || (0xcf1 <= u && u <= 0xcf3)
    || (0xd00 <= u && u <= 0xd0c)
    || (0xd0e <= u && u <= 0xd10)
}

pub open spec fn word_part_4(u: u32) -> bool {
    ||| (0xd12 <= u && u <= 0xd44)
    ||| (0xd46 <= u && u <= 0xd48)
    ||| (0xd4a <= u && u <= 0xd4e)
    ||| (0xd54 <= u && u <= 0xd57)
    ||| (0xd5f <= u && u <= 0xd63)
    ||| (0xd66 <= u && u <= 0xd6f)
    ||| (0xd7a <= u && u <= 0xd7f)
    ||| (0xd81 <= u && u <= 0xd83)
    ||| (0xd85 <= u && u <= 0xd96)
    ||| (0xd9a <= u && u <= 0xdb1)
    ||| (0xdb3 <= u && u <= 0xdbb)
    ||| (0xdbd <= u && u <= 0xdbd)
    ||| (0xdc0 <= u && u <= 0xdc6)
    ||| (0xdca <= u && u <= 0xdca)
    ||| (0xdcf <= u && u <= 0xdd4)
    ||| (0xdd6 <= u && u <= 0xdd6)
    ||| (0xdd8 <= u && u <= 0xddf)
    ||| (0xde6 <= u && u <= 0xdef)
    ||| (0xdf2 <= u && u <= 0xdf3)
    ||| (0xe01 <= u && u <= 0xe3a)
    ||| (0xe40 <= u && u <= 0xe4e)
    ||| (0xe50 <= u && u <= 0xe59)
    ||| (0xe81 <= u && u <= 0xe82)
    ||| (0xe84 <= u && u <= 0xe84)
    ||| (0xe86 <= u && u <= 0xe8a)
    ||| (0xe8c <= u && u <= 0xea3)
    ||| (0xea5 <= u && u <= 0xea5)
    ||| (0xea7 <= u && u <= 0xebd)
    ||| (0xec0 <= u && u <= 0xec4)
    ||| (0xec6 <= u && u <= 0xec6)
    ||| (0xec8 <= u && u <= 0xece)
    ||| (0xed0 <= u && u <= 0xed9)
    ||| (0xedc <= u && u <= 0xedf)
    ||| (0xf00 <= u && u <= 0xf00)
    ||| (0xf18 <= u && u <= 0xf19)
    ||| (0xf20 <= u && u <= 0xf29)
    ||| (0xf35 <= u && u <= 0xf35)
    ||| (0xf37 <= u && u <= 0xf37)
    ||| (0xf39 <= u && u <= 0xf39)
    ||| (0xf3e <= u && u <= 0xf47)
}

fn word_part_4_exec(u: u32) -> (r: bool)
    ensures
        r == word_part_4(u),
{
    (0xd12 <= u && u <= 0xd44)
    || (0xd46 <= u && u <= 0xd48)
    || (0xd4a <= u && u <= 0xd4e)
    || (0xd54 <= u && u <= 0xd57)
    || (0xd5f <= u && u <= 0xd63)
    || (0xd66 <= u && u <= 0xd6f)
    || (0xd7a <= u && u <= 0xd7f)
    || (0xd81 <= u && u <= 0xd83)
    || (0xd85 <= u && u <= 0xd96)
    || (0xd9a <= u && u <= 0xdb1)
    || (0xdb3 <= u && u <= 0xdbb)
    || (0xdbd <= u && u <= 0xdbd)
    || (0xdc0 <= u && u <= 0xdc6)
    || (0xdca <= u && u <= 0xdca)
    || (0xdcf <= u && u <= 0xdd4)
    || (0xdd6 <= u && u <= 0xdd6)
    || (0xdd8 <= u && u <= 0xddf)
    || (0xde6 <= u && u <= 0xdef)
    || (0xdf2 <= u && u <= 0xdf3)
    || (0xe01 <= u && u <= 0xe3a)
    || (0xe40 <= u && u <= 0xe4e)
    || (0xe50 <= u && u <= 0xe59)
    || (0xe81 <= u && u <= 0xe82)
    || (0xe84 <= u && u <= 0xe84)
    || (0xe86 <= u && u <= 0xe8a)
    || (0xe8c <= u && u <= 0xea3)
    || (0xea5 <= u && u <= 0xea5)
    || (0xea7 <= u && u <= 0xebd)
    || (0xec0 <= u && u <= 0xec4)
    || (0xec6 <= u && u <= 0xec6)
    || (0xec8 <= u && u <= 0xece)
    || (0xed0 <= u && u <= 0xed9)
    || (0xedc <= u && u <= 0xedf)
    || (0xf00 <= u && u <= 0xf00)
    || (0xf18 <= u && u <= 0xf19)
    || (0xf20 <= u && u <= 0xf29)
    || (0xf35 <= u && u <= 0xf35)
    || (0xf37 <= u && u <= 0xf37)
    || (0xf39 <= u && u <= 0xf39)
    || (0xf3e <= u && u <= 0xf47)
}

pub open spec fn word_part_5(u: u32) -> bool {
    ||| (0xf49 <= u && u <= 0xf6c)
    ||| (0xf71 <= u && u <= 0xf84)
    ||| (0xf86 <= u && u <= 0xf97)
    ||| (0xf99 <= u && u <= 0xfbc)
    ||| (0xfc6 <= u && u <= 0xfc6)
    ||| (0x1000 <= u && u <= 0x1049)
    ||| (0x1050 <= u && u <= 0x109d)
    ||| (0x10a0 <= u && u <= 0x10c5)
    ||| (0x10c7 <= u && u <= 0x10c7)
    ||| (0x10cd <= u && u <= 0x10cd)
    ||| (0x10d0 <= u && u <= 0x10fa)
    ||| (0x10fc <= u && u <= 0x1248)
    ||| (0x124a <= u && u <= 0x124d)
    ||| (0x1250 <= u && u <= 0x1256)
    ||| (0x1258 <= u && u <= 0x1258)
    ||| (0x125a <= u && u <= 0x125d)
    ||| (0x1260 <= u && u <= 0x1288)
    ||| (0x128a <= u && u <= 0x128d)
    ||| (0x1290 <= u && u <= 0x12b0)
    ||| (0x12b2 <= u && u <= 0x12b5)
    ||| (0x12b8 <= u && u <= 0x12be)
    ||| (0x12c0 <= u && u <= 0x12c0)
    ||| (0x12c2 <= u && u <= 0x12c5)
    ||| (0x12c8 <= u && u <= 0x12d6)
    ||| (0x12d8 <= u && u <= 0x1310)
    ||| (0x1312 <= u && u <= 0x1315)
    ||| (0x1318 <= u && u <= 0x135a)
    ||| (0x135d <= u && u <= 0x135f)
    ||| (0x1380 <= u && u <= 0x138f)
    ||| (0x13a0 <= u && u <= 0x13f5)
    ||| (0x13f8 <= u && u <= 0x13fd)
    ||| (0x1401 <= u && u <= 0x166c)
    ||| (0x166f <= u && u <= 0x167f)
    ||| (0x1681 <= u && u <= 0x169a)
    ||| (0x16a0 <= u && u <= 0x16ea)
    ||| (0x16ee <= u && u <= 0x16f8)
    ||| (0x1700 <= u && u <= 0x1715)
    ||| (0x171f <= u && u <= 0x1734)
    ||| (0x1740 <= u && u <= 0x1753)
    ||| (0x1760 <= u && u <= 0x176c)
}

fn word_part_5_exec(u: u32) -> (r: bool)
    ensures
        r == word_part_5(u),
{
    (0xf49 <= u && u <= 0xf6c)
    || (0xf71 <= u && u <= 0xf84)
    || (0xf86 <= u && u <= 0xf97)
    || (0xf99 <= u && u <= 0xfbc)
    || (0xfc6 <= u && u <= 0xfc6)
    || (0x1000 <= u && u <= 0x1049)
    || (0x1050 <= u && u <= 0x109d)
    || (0x10a0 <= u && u <= 0x10c5)
    || (0x10c7 <= u && u <= 0x10c7)
    || (0x10cd <= u && u <= 0x10cd)
    || (0x10d0 <= u && u <= 0x10fa)
    || (0x10fc <= u && u <= 0x1248)
    || (0x124a <= u && u <= 0x124d)
    || (0x1250 <= u && u <= 0x1256)
    || (0x1258 <= u && u <= 0x1258)
    || (0x125a <= u && u <= 0x125d)
    || (0x1260 <= u && u <= 0x1288)
    || (0x128a <= u && u <= 0x128d)
    || (0x1290 <= u && u <= 0x12b0)
    || (0x12b2 <= u && u <= 0x12b5)
    || (0x12b8 <= u && u <= 0x12be)
    || (0x12c0 <= u && u <= 0x12c0)
    || (0x12c2 <= u && u <= 0x12c5)
    || (0x12c8 <= u && u <= 0x12d6)
    || (0x12d8 <= u && u <= 0x1310)
    || (0x1312 <= u && u <= 0x1315)
    || (0x1318 <= u && u <= 0x135a)
    || (0x135d <= u && u <= 0x135f)
    || (0x1380 <= u && u <= 0x138f)
    || (0x13a0 <= u && u <= 0x13f5)
    || (0x13f8 <= u && u <= 0x13fd)
    || (0x1401 <= u && u <= 0x166c)
    || (0x166f <= u && u <= 0x167f)
    || (0x1681 <= u && u <= 0x169a)
    || (0x16a0 <= u && u <= 0x16ea)
    || (0x16ee <= u && u <= 0x16f8)
    || (0x1700 <= u && u <= 0x1715)
    || (0x171f <= u && u <= 0x1734)
    || (0x1740 <= u && u <= 0x1753)
    || (0x1760 <= u && u <= 0x176c)
}

pub open spec fn word_part_6(u: u32) -> bool {
    ||| (0x176e <= u && u <= 0x1770)
    ||| (0x1772 <= u && u <= 0x1773)
    ||| (0x1780 <= u && u <= 0x17d3)
    ||| (0x17d7 <= u && u <= 0x17d7)
    ||| (0x17dc <= u && u <= 0x17dd)
    ||| (0x17e0 <= u && u <= 0x17e9)
    ||| (0x180b <= u && u <= 0x180d)
    ||| (0x180f <= u && u <= 0x1819)
    ||| (0x1820 <= u && u <= 0x1878)
    ||| (0x1880 <= u && u <= 0x18aa)
    ||| (0x18b0 <= u && u <= 0x18f5)
    ||| (0x1900 <= u && u <= 0x191e)
    ||| (0x1920 <= u && u <= 0x192b)
    ||| (0x1930 <= u && u <= 0x193b)
    ||| (0x1946 <= u && u <= 0x196d)
    ||| (0x1970 <= u && u <= 0x1974)
    ||| (0x1980 <= u && u <= 0x19ab)
    ||| (0x19b0 <= u && u <= 0x19c9)
    ||| (0x19d0 <= u && u <= 0x19d9)
    ||| (0x1a00 <= u && u <= 0x1a1b)
    ||| (0x1a20 <= u && u <= 0x1a5e)
    ||| (0x1a60 <= u && u <= 0x1a7c)
    ||| (0x1a7f <= u && u <= 0x1a89)
    ||| (0x1a90 <= u && u <= 0x1a99)
    ||| (0x1aa7 <= u && u <= 0x1aa7)
    ||| (0x1ab0 <= u && u <= 0x1ace)
    ||| (0x1b00 <= u && u <= 0x1b4c)
    ||| (0x1b50 <= u && u <= 0x1b59)
    ||| (0x1b6b <= u && u <= 0x1b73)
    ||| (0x1b80 <= u && u <= 0x1bf3)
    ||| (0x1c00 <= u && u <= 0x1c37)
    ||| (0x1c40 <= u && u <= 0x1c49)
    ||| (0x1c4d <= u && u <= 0x1c7d)
    ||| (0x1c80 <= u && u <= 0x1c8a)
    ||| (0x1c90 <= u && u <= 0x1cba)
    ||| (0x1cbd <= u && u <= 0x1cbf)
    ||| (0x1cd0 <= u && u <= 0x1cd2)
    ||| (0x1cd4 <= u && u <= 0x1cfa)
    ||| (0x1d00 <= u && u <= 0x1f15)
    ||| (0x1f18 <= u && u <= 0x1f1d)
}

fn word_part_6_exec(u: u32) -> (r: bool)
    ensures
        r == word_part_6(u),
{
    (0x176e <= u && u <= 0x1770)
    || (0x1772 <= u && u <= 0x1773)
    || (0x1780 <= u && u <= 0x17d3)
    || (0x17d7 <= u && u <= 0x17d7)
    || (0x17dc <= u && u <= 0x17dd)
    || (0x17e0 <= u && u <= 0x17e9)
    || (0x180b <= u && u <= 0x180d)
    || (0x180f <= u && u <= 0x1819)
    || (0x1820 <= u && u <= 0x1878)
    || (0x1880 <= u && u <= 0x18aa)
    || (0x18b0 <= u && u <= 0x18f5)
    || (0x1900 <= u && u <= 0x191e)
    || (0x1920 <= u && u <= 0x192b)
    || (0x1930 <= u && u <= 0x193b)
    || (0x1946 <= u && u <= 0x196d)
    || (0x1970 <= u && u <= 0x1974)
    || (0x1980 <= u && u <= 0x19ab)
    || (0x19b0 <= u && u <= 0x19c9)
    || (0x19d0 <= u && u <= 0x19d9)
    || (0x1a00 <= u && u <= 0x1a1b)
    || (0x1a20 <= u && u <= 0x1a5e)
    || (0x1a60 <= u && u <= 0x1a7c)
    || (0x1a7f <= u && u <= 0x1a89)
    || (0x1a90 <= u && u <= 0x1a99)
    || (0x1aa7 <= u && u <= 0x1aa7)
    || (0x1ab0 <= u && u <= 0x1ace)
    || (0x1b00 <= u && u <= 0x1b4c)
    || (0x1b50 <= u && u <= 0x1b59)
    || (0x1b6b <= u && u <= 0x1b73)
    || (0x1b80 <= u && u <= 0x1bf3)
    || (0x1c00 <= u && u <= 0x1c37)
    || (0x1c40 <= u && u <= 0x1c49)
    || (0x1c4d <= u && u <= 0x1c7d)
    || (0x1c80 <= u && u <= 0x1c8a)
    || (0x1c90 <= u && u <= 0x1cba)
    || (0x1cbd <= u && u <= 0x1cbf)
    || (0x1cd0 <= u && u <= 0x1cd2)
    || (0x1cd4 <= u && u <= 0x1cfa)
    || (0x1d00 <= u && u <= 0x1f15)
    || (0x1f18 <= u && u <= 0x1f1d)
}

pub open spec fn word_part_7(u: u32) -> bool {
    ||| (0x1f20 <= u && u <= 0x1f45)
    ||| (0x1f48 <= u && u <= 0x1f4d)
    ||| (0x1f50 <= u && u <= 0x1f57)
    ||| (0x1f59 <= u && u <= 0x1f59)
    ||| (0x1f5b <= u && u <= 0x1f5b)
    ||| (0x1f5d <= u && u <= 0x1f5d)
    ||| (0x1f5f <= u && u <= 0x1f7d)
    ||| (0x1f80 <= u && u <= 0x1fb4)
    ||| (0x1fb6 <= u && u <= 0x1fbc)
    ||| (0x1fbe <= u && u <= 0x1fbe)
    ||| (0x1fc2 <= u && u <= 0x1fc4)
    ||| (0x1fc6 <= u && u <= 0x1fcc)
    ||| (0x1fd0 <= u && u <= 0x1fd3)
    ||| (0x1fd6 <= u && u <= 0x1fdb)
    ||| (0x1fe0 <= u && u <= 0x1fec)
    ||| (0x1ff2 <= u && u <= 0x1ff4)
    ||| (0x1ff6 <= u && u <= 0x1ffc)
    ||| (0x200c <= u && u <= 0x200d)
    ||| (0x203f <= u && u <= 0x2040)
    ||| (0x2054 <= u && u <= 0x2054)
    ||| (0x2071 <= u && u <= 0x2071)
    ||| (0x207f <= u && u <= 0x207f)
    ||| (0x2090 <= u && u <= 0x209c)
    ||| (0x20d0 <= u && u <= 0x20f0)
    ||| (0x2102 <= u && u <= 0x2102)
    ||| (0x2107 <= u && u <= 0x2107)
    ||| (0x210a <= u && u <= 0x2113)
    ||| (0x2115 <= u && u <= 0x2115)
    ||| (0x2119 <= u && u <= 0x211d)
    ||| (0x2124 <= u && u <= 0x2124)
    ||| (0x2126 <= u && u <= 0x2126)
    ||| (0x2128 <= u && u <= 0x2128)
    ||| (0x212a <= u && u <= 0x212d)
    ||| (0x212f <= u && u <= 0x2139)
    ||| (0x213c <= u && u <= 0x213f)
    ||| (0x2145 <= u && u <= 0x2149)
    ||| (0x214e <= u && u <= 0x214e)
    ||| (0x2160 <= u && u <= 0x2188)
    ||| (0x24b6 <= u && u <= 0x24e9)
    ||| (0x2c00 <= u && u <= 0x2ce4)
}

fn word_part_7_exec(u: u32) -> (r: bool)
    ensures
        r == word_part_7(u),
{
    (0x1f20 <= u && u <= 0x1f45)
    || (0x1f48 <= u && u <= 0x1f4d)
    || (0x1f50 <= u && u <= 0x1f57)
    || (0x1f59 <= u && u <= 0x1f59)
    || (0x1f5b <= u && u <= 0x1f5b)
    || (0x1f5d <= u && u <= 0x1f5d)
    || (0x1f5f <= u && u <= 0x1f7d)
    || (0x1f80 <= u && u <= 0x1fb4)
    || (0x1fb6 <= u && u <= 0x1fbc)
    || (0x1fbe <= u && u <= 0x1fbe)
    || (0x1fc2 <= u && u <= 0x1fc4)
    || (0x1fc6 <= u && u <= 0x1fcc)
    || (0x1fd0 <= u && u <= 0x1fd3)
    || (0x1fd6 <= u && u <= 0x1fdb)
    || (0x1fe0 <= u && u <= 0x1fec)
    || (0x1ff2 <= u && u <= 0x1ff4)
    || (0x1ff6 <= u && u <= 0x1ffc)
    || (0x200c <= u && u <= 0x200d)
    || (0x203f <= u && u <= 0x2040)
    || (0x2054 <= u && u <= 0x2054)
    || (0x2071 <= u && u <= 0x2071)
    || (0x207f <= u && u <= 0x207f)
    || (0x2090 <= u && u <= 0x209c)
    || (0x20d0 <= u && u <= 0x20f0)
    || (0x2102 <= u && u <= 0x2102)
    || (0x2107 <= u && u <= 0x2107)
    || (0x210a <= u && u <= 0x2113)
    || (0x2115 <= u && u <= 0x2115)
    || (0x2119 <= u && u <= 0x211d)
    || (0x2124 <= u && u <= 0x2124)
    || (0x2126 <= u && u <= 0x2126)
    || (0x2128 <= u && u <= 0x2128)
    || (0x212a <= u && u <= 0x212d)
    || (0x212f <= u && u <= 0x2139)
    || (0x213c <= u && u <= 0x213f)
    || (0x2145 <= u && u <= 0x2149)
    || (0x214e <= u && u <= 0x214e)
    || (0x2160 <= u && u <= 0x2188)
    || (0x24b6 <= u && u <= 0x24e9)
    || (0x2c00 <= u && u <= 0x2ce4)
}

pub open spec fn word_part_8(u: u32) -> bool {
    ||| (0x2ceb <= u && u <= 0x2cf3)
    ||| (0x2d00 <= u && u <= 0x2d25)
    ||| (0x2d27 <= u && u <= 0x2d27)
    ||| (0x2d2d <= u && u <= 0x2d2d)
    ||| (0x2d30 <= u && u <= 0x2d67)
    ||| (0x2d6f <= u && u <= 0x2d6f)
    ||| (0x2d7f <= u && u <= 0x2d96)
    ||| (0x2da0 <= u && u <= 0x2da6)
    ||| (0x2da8 <= u && u <= 0x2dae)
    ||| (0x2db0 <= u && u <= 0x2db6)
    ||| (0x2db8 <= u && u <= 0x2dbe)
    ||| (0x2dc0 <= u && u <= 0x2dc6)
    ||| (0x2dc8 <= u && u <= 0x2dce)
    ||| (0x2dd0 <= u && u <= 0x2dd6)
    ||| (0x2dd8 <= u && u <= 0x2dde)
    ||| (0x2de0 <= u && u <= 0x2dff)
    ||| (0x2e2f <= u && u <= 0x2e2f)
    ||| (0x3005 <= u && u <= 0x3007)
    ||| (0x3021 <= u && u <= 0x302f)
    ||| (0x3031 <= u && u <= 0x3035)
    ||| (0x3038 <= u && u <= 0x303c)
    ||| (0x3041 <= u && u <= 0x3096)
    ||| (0x3099 <= u && u <= 0x309a)
    ||| (0x309d <= u && u <= 0x309f)
    ||| (0x30a1 <= u && u <= 0x30fa)
    ||| (0x30fc <= u && u <= 0x30ff)
    ||| (0x3105 <= u && u <= 0x312f)
    ||| (0x3131 <= u && u <= 0x318e)
    ||| (0x31a0 <= u && u <= 0x31bf)
    ||| (0x31f0 <= u && u <= 0x31ff)
    ||| (0x3400 <= u && u <= 0x4dbf)
    ||| (0x4e00 <= u && u <= 0xa48c)
    ||| (0xa4d0 <= u && u <= 0xa4fd)
    ||| (0xa500 <= u && u <= 0xa60c)
    ||| (0xa610 <= u && u <= 0xa62b)
    ||| (0xa640 <= u && u <= 0xa672)
    ||| (0xa674 <= u && u <= 0xa67d)
    ||| (0xa67f <= u && u <= 0xa6f1)
    ||| (0xa717 <= u && u <= 0xa71f)
    ||| (0xa722 <= u && u <= 0xa788)
}

fn word_part_8_exec(u: u32) -> (r: bool)
    ensures
        r == word_part_8(u),
{
    (0x2ceb <= u && u <= 0x2cf3)
    || (0x2d00 <= u && u <= 0x2d25)
    || (0x2d27 <= u && u <= 0x2d27)
    || (0x2d2d <= u && u <= 0x2d2d)
    || (0x2d30 <= u && u <= 0x2d67)
    || (0x2d6f <= u && u <= 0x2d6f)
    || (0x2d7f <= u && u <= 0x2d96)
    || (0x2da0 <= u && u <= 0x2da6)
    || (0x2da8 <= u && u <= 0x2dae)
    || (0x2db0 <= u && u <= 0x2db6)
    || (0x2db8 <= u && u <= 0x2dbe)
    || (0x2dc0 <= u && u <= 0x2dc6)
    || (0x2dc8 <= u && u <= 0x2dce)
    || (0x2dd0 <= u && u <= 0x2dd6)
    || (0x2dd8 <= u && u <= 0x2dde)
    || (0x2de0 <= u && u <= 0x2dff)
    || (0x2e2f <= u && u <= 0x2e2f)
    || (0x3005 <= u && u <= 0x3007)
    || (0x3021 <= u && u <= 0x302f)
    || (0x3031 <= u && u <= 0x3035)
    || (0x3038 <= u && u <= 0x303c)
    || (0x3041 <= u && u <= 0x3096)
    || (0x3099 <= u && u <= 0x309a)
    || (0x309d <= u && u <= 0x309f)
    || (0x30a1 <= u && u <= 0x30fa)
    || (0x30fc <= u && u <= 0x30ff)
    || (0x3105 <= u && u <= 0x312f)
    || (0x3131 <= u && u <= 0x318e)
    || (0x31a0 <= u && u <= 0x31bf)
    || (0x31f0 <= u && u <= 0x31ff)
    || (0x3400 <= u && u <= 0x4dbf)
    || (0x4e00 <= u && u <= 0xa48c)
    || (0xa4d0 <= u && u <= 0xa4fd)
    || (0xa500 <= u && u <= 0xa60c)
    || (0xa610 <= u && u <= 0xa62b)
    || (0xa640 <= u && u <= 0xa672)
    || (0xa674 <= u && u <= 0xa67d)
    || (0xa67f <= u && u <= 0xa6f1)
    || (0xa717 <= u && u <= 0xa71f)
    || (0xa722 <= u && u <= 0xa788)
}

pub open spec fn word_part_9(u: u32) -> bool {
    ||| (0xa78b <= u && u <= 0xa7cd)
    ||| (0xa7d0 <= u && u <= 0xa7d1)
    ||| (0xa7d3 <= u && u <= 0xa7d3)
    ||| (0xa7d5 <= u && u <= 0xa7dc)
    ||| (0xa7f2 <= u && u <= 0xa827)
    ||| (0xa82c <= u && u <= 0xa82c)
    ||| (0xa840 <= u && u <= 0xa873)
    ||| (0xa880 <= u && u <= 0xa8c5)
    ||| (0xa8d0 <= u && u <= 0xa8d9)
    ||| (0xa8e0 <= u && u <= 0xa8f7)
    ||| (0xa8fb <= u && u <= 0xa8fb)
    ||| (0xa8fd <= u && u <= 0xa92d)
    ||| (0xa930 <= u && u <= 0xa953)
    ||| (0xa960 <= u && u <= 0xa97c)
    ||| (0xa980 <= u && u <= 0xa9c0)
    ||| (0xa9cf <= u && u <= 0xa9d9)
    ||| (0xa9e0 <= u && u <= 0xa9fe)
    ||| (0xaa00 <= u && u <= 0xaa36)
    ||| (0xaa40 <= u && u <= 0xaa4d)
    ||| (0xaa50 <= u && u <= 0xaa59)
    ||| (0xaa60 <= u && u <= 0xaa76)
    ||| (0xaa7a <= u && u <= 0xaac2)
    ||| (0xaadb <= u && u <= 0xaadd)
    ||| (0xaae0 <= u && u <= 0xaaef)
    ||| (0xaaf2 <= u && u <= 0xaaf6)
    ||| (0xab01 <= u && u <= 0xab06)
    ||| (0xab09 <= u && u <= 0xab0e)
    ||| (0xab11 <= u && u <= 0xab16)
    ||| (0xab20 <= u && u <= 0xab26)
    ||| (0xab28 <= u && u <= 0xab2e)
    ||| (0xab30 <= u && u <= 0xab5a)
    ||| (0xab5c <= u && u <= 0xab69)
    ||| (0xab70 <= u && u <= 0xabea)
    ||| (0xabec <= u && u <= 0xabed)
    ||| (0xabf0 <= u && u <= 0xabf9)
    ||| (0xac00 <= u && u <= 0xd7a3)
    ||| (0xd7b0 <= u && u <= 0xd7c6)
    ||| (0xd7cb <= u && u <= 0xd7fb)
    ||| (0xf900 <= u && u <= 0xfa6d)
    ||| (0xfa70 <= u && u <= 0xfad9)
}

fn word_part_9_exec(u: u32) -> (r: bool)
    ensures
        r == word_part_9(u),
{
    (0xa78b <= u && u <= 0xa7cd)
    || (0xa7d0 <= u && u <= 0xa7d1)
    || (0xa7d3 <= u && u <= 0xa7d3)
    || (0xa7d5 <= u && u <= 0xa7dc)
    || (0xa7f2 <= u && u <= 0xa827)
    || (0xa82c <= u && u <= 0xa82c)
    || (0xa840 <= u && u <= 0xa873)
    || (0xa880 <= u && u <= 0xa8c5)
    || (0xa8d0 <= u && u <= 0xa8d9)
    || (0xa8e0 <= u && u <= 0xa8f7)
    || (0xa8fb <= u && u <= 0xa8fb)
    || (0xa8fd <= u && u <= 0xa92d)
    || (0xa930 <= u && u <= 0xa953)
    || (0xa960 <= u && u <= 0xa97c)
    || (0xa980 <= u && u <= 0xa9c0)
    || (0xa9cf <= u && u <= 0xa9d9)
    || (0xa9e0 <= u && u <= 0xa9fe)
    || (0xaa00 <= u && u <= 0xaa36)
    || (0xaa40 <= u && u <= 0xaa4d)
    || (0xaa50 <= u && u <= 0xaa59)
    || (0xaa60 <= u && u <= 0xaa76)
    || (0xaa7a <= u && u <= 0xaac2)
    || (0xaadb <= u && u <= 0xaadd)
    || (0xaae0 <= u && u <= 0xaaef)
    || (0xaaf2 <= u && u <= 0xaaf6)
    || (0xab01 <= u && u <= 0xab06)
    || (0xab09 <= u && u <= 0xab0e)
    || (0xab11 <= u && u <= 0xab16)
    || (0xab20 <= u && u <= 0xab26)
    || (0xab28 <= u && u <= 0xab2e)
    || (0xab30 <= u && u <= 0xab5a)
    || (0xab5c <= u && u <= 0xab69)
    || (0xab70 <= u && u <= 0xabea)
    || (0xabec <= u && u <= 0xabed)
    || (0xabf0 <= u && u <= 0xabf9)
    || (0xac00 <= u && u <= 0xd7a3)
    || (0xd7b0 <= u && u <= 0xd7c6)
    || (0xd7cb <= u && u <= 0xd7fb)
    || (0xf900 <= u && u <= 0xfa6d)
    || (0xfa70 <= u && u <= 0xfad9)
}

pub open spec fn word_part_10(u: u32) -> bool {
    ||| (0xfb00 <= u && u <= 0xfb06)
    ||| (0xfb13 <= u && u <= 0xfb17)
    ||| (0xfb1d <= u && u <= 0xfb28)
    ||| (0xfb2a <= u && u <= 0xfb36)
    ||| (0xfb38 <= u && u <= 0xfb3c)
    ||| (0xfb3e <= u && u <= 0xfb3e)
    ||| (0xfb40 <= u && u <= 0xfb41)
    ||| (0xfb43 <= u && u <= 0xfb44)
    ||| (0xfb46 <= u && u <= 0xfbb1)
    ||| (0xfbd3 <= u && u <= 0xfd3d)
    ||| (0xfd50 <= u && u <= 0xfd8f)
    ||| (0xfd92 <= u && u <= 0xfdc7)
    ||| (0xfdf0 <= u && u <= 0xfdfb)
    ||| (0xfe00 <= u && u <= 0xfe0f)
    ||| (0xfe20 <= u && u <= 0xfe2f)
    ||| (0xfe33 <= u && u <= 0xfe34)
    ||| (0xfe4d <= u && u <= 0xfe4f)
    ||| (0xfe70 <= u && u <= 0xfe74)
    ||| (0xfe76 <= u && u <= 0xfefc)
    ||| (0xff10 <= u && u <= 0xff19)
    ||| (0xff21 <= u && u <= 0xff3a)
    ||| (0xff3f <= u && u <= 0xff3f)
    ||| (0xff41 <= u && u <= 0xff5a)
    ||| (0xff66 <= u && u <= 0xffbe)
    ||| (0xffc2 <= u && u <= 0xffc7)
    ||| (0xffca <= u && u <= 0xffcf)
    ||| (0xffd2 <= u && u <= 0xffd7)
    ||| (0xffda <= u && u <= 0xffdc)
    ||| (0x10000 <= u && u <= 0x1000b)
    ||| (0x1000d <= u && u <= 0x10026)
    ||| (0x10028 <= u && u <= 0x1003a)
    ||| (0x1003c <= u && u <= 0x1003d)
    ||| (0x1003f <= u && u <= 0x1004d)
    ||| (0x10050 <= u && u <= 0x1005d)
    ||| (0x10080 <= u && u <= 0x100fa)
    ||| (0x10140 <= u && u <= 0x10174)
    ||| (0x101fd <= u && u <= 0x101fd)
    ||| (0x10280 <= u && u <= 0x1029c)
    ||| (0x102a0 <= u && u <= 0x102d0)
    ||| (0x102e0 <= u && u <= 0x102e0)
}

fn word_part_10_exec(u: u32) -> (r: bool)
    ensures
        r == word_part_10(u),
{
    (0xfb00 <= u && u <= 0xfb06)
    || (0xfb13 <= u && u <= 0xfb17)
    || (0xfb1d <= u && u <= 0xfb28)
    || (0xfb2a <= u && u <= 0xfb36)
    || (0xfb38 <= u && u <= 0xfb3c)
    || (0xfb3e <= u && u <= 0xfb3e)
    || (0xfb40 <= u && u <= 0xfb41)
    || (0xfb43 <= u && u <= 0xfb44)
    || (0xfb46 <= u && u <= 0xfbb1)
    || (0xfbd3 <= u && u <= 0xfd3d)
    || (0xfd50 <= u && u <= 0xfd8f)
    || (0xfd92 <= u && u <= 0xfdc7)
    || (0xfdf0 <= u && u <= 0xfdfb)
    || (0xfe00 <= u && u <= 0xfe0f)
    || (0xfe20 <= u && u <= 0xfe2f)
    || (0xfe33 <= u && u <= 0xfe34)
    || (0xfe4d <= u && u <= 0xfe4f)
    || (0xfe70 <= u && u <= 0xfe74)
    || (0xfe76 <= u && u <= 0xfefc)
    || (0xff10 <= u && u <= 0xff19)
    || (0xff21 <= u && u <= 0xff3a)
    || (0xff3f <= u && u <= 0xff3f)
    || (0xff41 <= u && u <= 0xff5a)
    || (0xff66 <= u && u <= 0xffbe)
    || (0xffc2 <= u && u <= 0xffc7)
    || (0xffca <= u && u <= 0xffcf)
    || (0xffd2 <= u && u <= 0xffd7)
    || (0xffda <= u && u <= 0xffdc)
    || (0x10000 <= u && u <= 0x1000b)
    || (0x1000d <= u && u <= 0x10026)
    || (0x10028 <= u && u <= 0x1003a)
    || (0x1003c <= u && u <= 0x1003d)
    || (0x1003f <= u && u <= 0x1004d)
    || (0x10050 <= u && u <= 0x1005d)
    || (0x10080 <= u && u <= 0x100fa)
    || (0x10140 <= u && u <= 0x10174)
    || (0x101fd <= u && u <= 0x101fd)
    || (0x10280 <= u && u <= 0x1029c)
    || (0x102a0 <= u && u <= 0x102d0)
    || (0x102e0 <= u && u <= 0x102e0)
}

pub open spec fn word_part_11(u: u32) -> bool {
    ||| (0x10300 <= u && u <= 0x1031f)
    ||| (0x1032d <= u && u <= 0x1034a)
    ||| (0x10350 <= u && u <= 0x1037a)
    ||| (0x10380 <= u && u <= 0x1039d)
    ||| (0x103a0 <= u && u <= 0x103c3)
    ||| (0x103c8 <= u && u <= 0x103cf)
    ||| (0x103d1 <= u && u <= 0x103d5)
    ||| (0x10400 <= u && u <= 0x1049d)
    ||| (0x104a0 <= u && u <= 0x104a9)
    ||| (0x104b0 <= u && u <= 0x104d3)
    ||| (0x104d8 <= u && u <= 0x104fb)
    ||| (0x10500 <= u && u <= 0x10527)
    ||| (0x10530 <= u && u <= 0x10563)
    ||| (0x10570 <= u && u <= 0x1057a)
    ||| (0x1057c <= u && u <= 0x1058a)
    ||| (0x1058c <= u && u <= 0x10592)
    ||| (0x10594 <= u && u <= 0x10595)
    ||| (0x10597 <= u && u <= 0x105a1)
    ||| (0x105a3 <= u && u <= 0x105b1)
    ||| (0x105b3 <= u && u <= 0x105b9)
    ||| (0x105bb <= u && u <= 0x105bc)
    ||| (0x105c0 <= u && u <= 0x105f3)
    ||| (0x10600 <= u && u <= 0x10736)
    ||| (0x10740 <= u && u <= 0x10755)
    ||| (0x10760 <= u && u <= 0x10767)
    ||| (0x10780 <= u && u <= 0x10785)
    ||| (0x10787 <= u && u <= 0x107b0)
    ||| (0x107b2 <= u && u <= 0x107ba)
    ||| (0x10800 <= u && u <= 0x10805)
    ||| (0x10808 <= u && u <= 0x10808)
    ||| (0x1080a <= u && u <= 0x10835)
    ||| (0x10837 <= u && u <= 0x10838)
    ||| (0x1083c <= u && u <= 0x1083c)
    ||| (0x1083f <= u && u <= 0x10855)
    ||| (0x10860 <= u && u <= 0x10876)
    ||| (0x10880 <= u && u <= 0x1089e)
    ||| (0x108e0 <= u && u <= 0x108f2)
    ||| (0x108f4 <= u && u <= 0x108f5)
    ||| (0x10900 <= u && u <= 0x10915)
    ||| (0x10920 <= u && u <= 0x10939)
}

fn word_part_11_exec(u: u32) -> (r: bool)
    ensures
        r == word_part_11(u),
{
    (0x10300 <= u && u <= 0x1031f)
    || (0x1032d <= u && u <= 0x1034a)
    || (0x10350 <= u && u <= 0x1037a)
    || (0x10380 <= u && u <= 0x1039d)
    || (0x103a0 <= u && u <= 0x103c3)
    || (0x103c8 <= u && u <= 0x103cf)
    || (0x103d1 <= u && u <= 0x103d5)
    || (0x10400 <= u && u <= 0x1049d)
    || (0x104a0 <= u && u <= 0x104a9)
    || (0x104b0 <= u && u <= 0x104d3)
    || (0x104d8 <= u && u <= 0x104fb)
    || (0x10500 <= u && u <= 0x10527)
    || (0x10530 <= u && u <= 0x10563)
    || (0x10570 <= u && u <= 0x1057a)
    || (0x1057c <= u && u <= 0x1058a)
    || (0x1058c <= u && u <= 0x10592)
    || (0x10594 <= u && u <= 0x10595)
    || (0x10597 <= u && u <= 0x105a1)
    || (0x105a3 <= u && u <= 0x105b1)
    || (0x105b3 <= u && u <= 0x105b9)
    || (0x105bb <= u && u <= 0x105bc)
    || (0x105c0 <= u && u <= 0x105f3)
    || (0x10600 <= u && u <= 0x10736)
    || (0x10740 <= u && u <= 0x10755)
    || (0x10760 <= u && u <= 0x10767)
    || (0x10780 <= u && u <= 0x10785)
    || (0x10787 <= u && u <= 0x107b0)
    || (0x107b2 <= u && u <= 0x107ba)
    || (0x10800 <= u && u <= 0x10805)
    || (0x10808 <= u && u <= 0x10808)
    || (0x1080a <= u && u <= 0x10835)
    || (0x10837 <= u && u <= 0x10838)
    || (0x1083c <= u && u <= 0x1083c)
    || (0x1083f <= u && u <= 0x10855)
    || (0x10860 <= u && u <= 0x10876)
    || (0x10880 <= u && u <= 0x1089e)
    || (0x108e0 <= u && u <= 0x108f2)
    || (0x108f4 <= u && u <= 0x108f5)
    || (0x10900 <= u && u <= 0x10915)
    || (0x10920 <= u && u <= 0x10939)
}

pub open spec fn word_part_12(u: u32) -> bool {
    ||| (0x10980 <= u && u <= 0x109b7)
    ||| (0x109be <= u && u <= 0x109bf)
    ||| (0x10a00 <= u && u <= 0x10a03)
    ||| (0x10a05 <= u && u <= 0x10a06)
    ||| (0x10a0c <= u && u <= 0x10a13)
    ||| (0x10a15 <= u && u <= 0x10a17)
    ||| (0x10a19 <= u && u <= 0x10a35)
    ||| (0x10a38 <= u && u <= 0x10a3a)
    ||| (0x10a3f <= u && u <= 0x10a3f)
    ||| (0x10a60 <= u && u <= 0x10a7c)
    ||| (0x10a80 <= u && u <= 0x10a9c)
    ||| (0x10ac0 <= u && u <= 0x10ac7)
    ||| (0x10ac9 <= u && u <= 0x10ae6)
    ||| (0x10b00 <= u && u <= 0x10b35)
    ||| (0x10b40 <= u && u <= 0x10b55)
    ||| (0x10b60 <= u && u <= 0x10b72)
    ||| (0x10b80 <= u && u <= 0x10b91)
    ||| (0x10c00 <= u && u <= 0x10c48)
    ||| (0x10c80 <= u && u <= 0x10cb2)
    ||| (0x10cc0 <= u && u <= 0x10cf2)
    ||| (0x10d00 <= u && u <= 0x10d27)
    ||| (0x10d30 <= u && u <= 0x10d39)
    ||| (0x10d40 <= u && u <= 0x10d65)
    ||| (0x10d69 <= u && u <= 0x10d6d)
    ||| (0x10d6f <= u && u <= 0x10d85)
    ||| (0x10e80 <= u && u <= 0x10ea9)
    ||| (0x10eab <= u && u <= 0x10eac)
    ||| (0x10eb0 <= u && u <= 0x10eb1)
    ||| (0x10ec2 <= u && u <= 0x10ec4)
    ||| (0x10efc <= u && u <= 0x10f1c)
    ||| (0x10f27 <= u && u <= 0x10f27)
    ||| (0x10f30 <= u && u <= 0x10f50)
    ||| (0x10f70 <= u && u <= 0x10f85)
    ||| (0x10fb0 <= u && u <= 0x10fc4)
    ||| (0x10fe0 <= u && u <= 0x10ff6)
    ||| (0x11000 <= u && u <= 0x11046)
    ||| (0x11066 <= u && u <= 0x11075)
    ||| (0x1107f <= u && u <= 0x110ba)
    ||| (0x110c2 <= u && u <= 0x110c2)
    ||| (0x110d0 <= u && u <= 0x110e8)
}

fn word_part_12_exec(u: u32) -> (r: bool)
    ensures
        r == word_part_12(u),
{
    (0x10980 <= u && u <= 0x109b7)
    || (0x109be <= u && u <= 0x109bf)
    || (0x10a00 <= u && u <= 0x10a03)
    || (0x10a05 <= u && u <= 0x10a06)
    || (0x10a0c <= u && u <= 0x10a13)
    || (0x10a15 <= u && u <= 0x10a17)
    || (0x10a19 <= u && u <= 0x10a35)
    || (0x10a38 <= u && u <= 0x10a3a)
    || (0x10a3f <= u && u <= 0x10a3f)
    || (0x10a60 <= u && u <= 0x10a7c)
    || (0x10a80 <= u && u <= 0x10a9c)
    || (0x10ac0 <= u && u <= 0x10ac7)
    || (0x10ac9 <= u && u <= 0x10ae6)
    || (0x10b00 <= u && u <= 0x10b35)
    || (0x10b40 <= u && u <= 0x10b55)
    || (0x10b60 <= u && u <= 0x10b72)
    || (0x10b80 <= u && u <= 0x10b91)
    || (0x10c00 <= u && u <= 0x10c48)
    || (0x10c80 <= u && u <= 0x10cb2)
    || (0x10cc0 <= u && u <= 0x10cf2)
    || (0x10d00 <= u && u <= 0x10d27)
    || (0x10d30 <= u && u <= 0x10d39)
    || (0x10d40 <= u && u <= 0x10d65)
    || (0x10d69 <= u && u <= 0x10d6d)
    || (0x10d6f <= u && u <= 0x10d85)
    || (0x10e80 <= u && u <= 0x10ea9)
    || (0x10eab <= u && u <= 0x10eac)
    || (0x10eb0 <= u && u <= 0x10eb1)
    || (0x10ec2 <= u && u <= 0x10ec4)
    || (0x10efc <= u && u <= 0x10f1c)
    || (0x10f27 <= u && u <= 0x10f27)
    || (0x10f30 <= u && u <= 0x10f50)
    || (0x10f70 <= u && u <= 0x10f85)
    || (0x10fb0 <= u && u <= 0x10fc4)
    || (0x10fe0 <= u && u <= 0x10ff6)
    || (0x11000 <= u && u <= 0x11046)
    || (0x11066 <= u && u <= 0x11075)
    || (0x1107f <= u && u <= 0x110ba)
    || (0x110c2 <= u && u <= 0x110c2)
    || (0x110d0 <= u && u <= 0x110e8)
}

pub open spec fn word_part_13(u: u32) -> bool {
    ||| (0x110f0 <= u && u <= 0x110f9)
    ||| (0x11100 <= u && u <= 0x11134)
    ||| (0x11136 <= u && u <= 0x1113f)
    ||| (0x11144 <= u && u <= 0x11147)
    ||| (0x11150 <= u && u <= 0x11173)
    ||| (0x11176 <= u && u <= 0x11176)
    ||| (0x11180 <= u && u <= 0x111c4)
    ||| (0x111c9 <= u && u <= 0x111cc)
    ||| (0x111ce <= u && u <= 0x111da)
    ||| (0x111dc <= u && u <= 0x111dc)
    ||| (0x11200 <= u && u <= 0x11211)
    ||| (0x11213 <= u && u <= 0x11237)
    ||| (0x1123e <= u && u <= 0x11241)
    ||| (0x11280 <= u && u <= 0x11286)
    ||| (0x11288 <= u && u <= 0x11288)
    ||| (0x1128a <= u && u <= 0x1128d)
    ||| (0x1128f <= u && u <= 0x1129d)
    ||| (0x1129f <= u && u <= 0x112a8)
    ||| (0x112b0 <= u && u <= 0x112ea)
    ||| (0x112f0 <= u && u <= 0x112f9)
    ||| (0x11300 <= u && u <= 0x11303)
    ||| (0x11305 <= u && u <= 0x1130c)
    ||| (0x1130f <= u && u <= 0x11310)
    ||| (0x11313 <= u && u <= 0x11328)
    ||| (0x1132a <= u && u <= 0x11330)
    ||| (0x11332 <= u && u <= 0x11333)
    ||| (0x11335 <= u && u <= 0x11339)
    ||| (0x1133b <= u && u <= 0x11344)
    ||| (0x11347 <= u && u <= 0x11348)
    ||| (0x1134b <= u && u <= 0x1134d)
    ||| (0x11350 <= u && u <= 0x11350)
    ||| (0x11357 <= u && u <= 0x11357)
    ||| (0x1135d <= u && u <= 0x11363)
    ||| (0x11366 <= u && u <= 0x1136c)
    ||| (0x11370 <= u && u <= 0x11374)
    ||| (0x11380 <= u && u <= 0x11389)
    ||| (0x1138b <= u && u <= 0x1138b)
    ||| (0x1138e <= u && u <= 0x1138e)
    ||| (0x11390 <= u && u <= 0x113b5)
    ||| (0x113b7 <= u && u <= 0x113c0)
}

fn word_part_13_exec(u: u32) -> (r: bool)
    ensures
        r == word_part_13(u),
{
    (0x110f0 <= u && u <= 0x110f9)
    || (0x11100 <= u && u <= 0x11134)
    || (0x11136 <= u && u <= 0x1113f)
    || (0x11144 <= u && u <= 0x11147)
    || (0x11150 <= u && u <= 0x11173)
    || (0x11176 <= u && u <= 0x11176)
    || (0x11180 <= u && u <= 0x111c4)
    || (0x111c9 <= u && u <= 0x111cc)
    || (0x111ce <= u && u <= 0x111da)
    || (0x111dc <= u && u <= 0x111dc)
    || (0x11200 <= u && u <= 0x11211)
    || (0x11213 <= u && u <= 0x11237)
    || (0x1123e <= u && u <= 0x11241)
    || (0x11280 <= u && u <= 0x11286)
    || (0x11288 <= u && u <= 0x11288)
    || (0x1128a <= u && u <= 0x1128d)
    || (0x1128f <= u && u <= 0x1129d)
    || (0x1129f <= u && u <= 0x112a8)
    || (0x112b0 <= u && u <= 0x112ea)
    || (0x112f0 <= u && u <= 0x112f9)
    || (0x11300 <= u && u <= 0x11303)
    || (0x11305 <= u && u <= 0x1130c)
    || (0x1130f <= u && u <= 0x11310)
    || (0x11313 <= u && u <= 0x11328)
    || (0x1132a <= u && u <= 0x11330)
    || (0x11332 <= u && u <= 0x11333)
    || (0x11335 <= u && u <= 0x11339)
    || (0x1133b <= u && u <= 0x11344)
    || (0x11347 <= u && u <= 0x11348)
    || (0x1134b <= u && u <= 0x1134d)
    || (0x11350 <= u && u <= 0x11350)
    || (0x11357 <= u && u <= 0x11357)
    || (0x1135d <= u && u <= 0x11363)
    || (0x11366 <= u && u <= 0x1136c)
    || (0x11370 <= u && u <= 0x11374)
    || (0x11380 <= u && u <= 0x11389)
    || (0x1138b <= u && u <= 0x1138b)
    || (0x1138e <= u && u <= 0x1138e)
    || (0x11390 <= u && u <= 0x113b5)
    || (0x113b7 <= u && u <= 0x113c0)
}

pub open spec fn word_part_14(u: u32) -> bool {
    ||| (0x113c2 <= u && u <= 0x113c2)
    ||| (0x113c5 <= u && u <= 0x113c5)
    ||| (0x113c7 <= u && u <= 0x113ca)
    ||| (0x113cc <= u && u <= 0x113d3)
    ||| (0x113e1 <= u && u <= 0x113e2)
    ||| (0x11400 <= u && u <= 0x1144a)
    ||| (0x11450 <= u && u <= 0x11459)
    ||| (0x1145e <= u && u <= 0x11461)
    ||| (0x11480 <= u && u <= 0x114c5)
    ||| (0x114c7 <= u && u <= 0x114c7)
    ||| (0x114d0 <= u && u <= 0x114d9)
    ||| (0x11580 <= u && u <= 0x115b5)
    ||| (0x115b8 <= u && u <= 0x115c0)
    ||| (0x115d8 <= u && u <= 0x115dd)
    ||| (0x11600 <= u && u <= 0x11640)
    ||| (0x11644 <= u && u <= 0x11644)
    ||| (0x11650 <= u && u <= 0x11659)
    ||| (0x11680 <= u && u <= 0x116b8)
    ||| (0x116c0 <= u && u <= 0x116c9)
    ||| (0x116d0 <= u && u <= 0x116e3)
    ||| (0x11700 <= u && u <= 0x1171a)
    ||| (0x1171d <= u && u <= 0x1172b)
    ||| (0x11730 <= u && u <= 0x11739)
    ||| (0x11740 <= u && u <= 0x11746)
    ||| (0x11800 <= u && u <= 0x1183a)
    ||| (0x118a0 <= u && u <= 0x118e9)
    ||| (0x118ff <= u && u <= 0x11906)
    ||| (0x11909 <= u && u <= 0x11909)
    ||| (0x1190c <= u && u <= 0x11913)
    ||| (0x11915 <= u && u <= 0x11916)
    ||| (0x11918 <= u && u <= 0x11935)
    ||| (0x11937 <= u && u <= 0x11938)
    ||| (0x1193b <= u && u <= 0x11943)
    ||| (0x11950 <= u && u <= 0x11959)
    ||| (0x119a0 <= u && u <= 0x119a7)
    ||| (0x119aa <= u && u <= 0x119d7)
    ||| (0x119da <= u && u <= 0x119e1)
    ||| (0x119e3 <= u && u <= 0x119e4)
    ||| (0x11a00 <= u && u <= 0x11a3e)
    ||| (0x11a47 <= u && u <= 0x11a47)
}

fn word_part_14_exec(u: u32) -> (r: bool)
    ensures
        r == word_part_14(u),
{
    (0x113c2 <= u && u <= 0x113c2)
    || (0x113c5 <= u && u <= 0x113c5)
    || (0x113c7 <= u && u <= 0x113ca)
    || (0x113cc <= u && u <= 0x113d3)
    || (0x113e1 <= u && u <= 0x113e2)
    || (0x11400 <= u && u <= 0x1144a)
    || (0x11450 <= u && u <= 0x11459)
    || (0x1145e <= u && u <= 0x11461)
    || (0x11480 <= u && u <= 0x114c5)
    || (0x114c7 <= u && u <= 0x114c7)
    || (0x114d0 <= u && u <= 0x114d9)
    || (0x11580 <= u && u <= 0x115b5)
    || (0x115b8 <= u && u <= 0x115c0)
    || (0x115d8 <= u && u <= 0x115dd)
    || (0x11600 <= u && u <= 0x11640)
    || (0x11644 <= u && u <= 0x11644)
    || (0x11650 <= u && u <= 0x11659)
    || (0x11680 <= u && u <= 0x116b8)
    || (0x116c0 <= u && u <= 0x116c9)
    || (0x116d0 <= u && u <= 0x116e3)
    || (0x11700 <= u && u <= 0x1171a)
    || (0x1171d <= u && u <= 0x1172b)
    || (0x11730 <= u && u <= 0x11739)
    || (0x11740 <= u && u <= 0x11746)
    || (0x11800 <= u && u <= 0x1183a)
    || (0x118a0 <= u && u <= 0x118e9)
    || (0x118ff <= u && u <= 0x11906)
    || (0x11909 <= u && u <= 0x11909)
    || (0x1190c <= u && u <= 0x11913)
    || (0x11915 <= u && u <= 0x11916)
    || (0x11918 <= u && u <= 0x11935)
    || (0x11937 <= u && u <= 0x11938)
    || (0x1193b <= u && u <= 0x11943)
    || (0x11950 <= u && u <= 0x11959)
    || (0x119a0 <= u && u <= 0x119a7)
    || (0x119aa <= u && u <= 0x119d7)
    || (0x119da <= u && u <= 0x119e1)
    || (0x119e3 <= u && u <= 0x119e4)
    || (0x11a00 <= u && u <= 0x11a3e)
    || (0x11a47 <= u && u <= 0x11a47)
}

pub open spec fn word_part_15(u: u32) -> bool {
    ||| (0x11a50 <= u && u <= 0x11a99)
    ||| (0x11a9d <= u && u <= 0x11a9d)
    ||| (0x11ab0 <= u && u <= 0x11af8)
    ||| (0x11bc0 <= u && u <= 0x11be0)
    ||| (0x11bf0 <= u && u <= 0x11bf9)
    ||| (0x11c00 <= u && u <= 0x11c08)
    ||| (0x11c0a <= u && u <= 0x11c36)
    ||| (0x11c38 <= u && u <= 0x11c40)
    ||| (0x11c50 <= u && u <= 0x11c59)
    ||| (0x11c72 <= u && u <= 0x11c8f)
    ||| (0x11c92 <= u && u <= 0x11ca7)
    ||| (0x11ca9 <= u && u <= 0x11cb6)
    ||| (0x11d00 <= u && u <= 0x11d06)
    ||| (0x11d08 <= u && u <= 0x11d09)
    ||| (0x11d0b <= u && u <= 0x11d36)
    ||| (0x11d3a <= u && u <= 0x11d3a)
    ||| (0x11d3c <= u && u <= 0x11d3d)
    ||| (0x11d3f <= u && u <= 0x11d47)
    ||| (0x11d50 <= u && u <= 0x11d59)
    ||| (0x11d60 <= u && u <= 0x11d65)
    ||| (0x11d67 <= u && u <= 0x11d68)
    ||| (0x11d6a <= u && u <= 0x11d8e)
    ||| (0x11d90 <= u && u <= 0x11d91)
    ||| (0x11d93 <= u && u <= 0x11d98)
    ||| (0x11da0 <= u && u <= 0x11da9)
    ||| (0x11ee0 <= u && u <= 0x11ef6)
    ||| (0x11f00 <= u && u <= 0x11f10)
    ||| (0x11f12 <= u && u <= 0x11f3a)
    ||| (0x11f3e <= u && u <= 0x11f42)
    ||| (0x11f50 <= u && u <= 0x11f5a)
    ||| (0x11fb0 <= u && u <= 0x11fb0)
    ||| (0x12000 <= u && u <= 0x12399)
    ||| (0x12400 <= u && u <= 0x1246e)
    ||| (0x12480 <= u && u <= 0x12543)
    ||| (0x12f90 <= u && u <= 0x12ff0)
    ||| (0x13000 <= u && u <= 0x1342f)
    ||| (0x13440 <= u && u <= 0x13455)
    ||| (0x13460 <= u && u <= 0x143fa)
    ||| (0x14400 <= u && u <= 0x14646)
    ||| (0x16100 <= u && u <= 0x16139)
}

fn word_part_15_exec(u: u32) -> (r: bool)
    ensures
        r == word_part_15(u),
{
    (0x11a50 <= u && u <= 0x11a99)
    || (0x11a9d <= u && u <= 0x11a9d)
    || (0x11ab0 <= u && u <= 0x11af8)
    || (0x11bc0 <= u && u <= 0x11be0)
    || (0x11bf0 <= u && u <= 0x11bf9)
    || (0x11c00 <= u && u <= 0x11c08)
    || (0x11c0a <= u && u <= 0x11c36)
    || (0x11c38 <= u && u <= 0x11c40)
    || (0x11c50 <= u && u <= 0x11c59)
    || (0x11c72 <= u && u <= 0x11c8f)
    || (0x11c92 <= u && u <= 0x11ca7)
    || (0x11ca9 <= u && u <= 0x11cb6)
    || (0x11d00 <= u && u <= 0x11d06)
    || (0x11d08 <= u && u <= 0x11d09)
    || (0x11d0b <= u && u <= 0x11d36)
    || (0x11d3a <= u && u <= 0x11d3a)
    || (0x11d3c <= u && u <= 0x11d3d)
    || (0x11d3f <= u && u <= 0x11d47)
    || (0x11d50 <= u && u <= 0x11d59)
    || (0x11d60 <= u && u <= 0x11d65)
    || (0x11d67 <= u && u <= 0x11d68)
    || (0x11d6a <= u && u <= 0x11d8e)
    || (0x11d90 <= u && u <= 0x11d91)
    || (0x11d93 <= u && u <= 0x11d98)
    || (0x11da0 <= u && u <= 0x11da9)
    || (0x11ee0 <= u && u <= 0x11ef6)
    || (0x11f00 <= u && u <= 0x11f10)
    || (0x11f12 <= u && u <= 0x11f3a)
    || (0x11f3e <= u && u <= 0x11f42)
    || (0x11f50 <= u && u <= 0x11f5a)
    || (0x11fb0 <= u && u <= 0x11fb0)
    || (0x12000 <= u && u <= 0x12399)
    || (0x12400 <= u && u <= 0x1246e)
    || (0x12480 <= u && u <= 0x12543)
    || (0x12f90 <= u && u <= 0x12ff0)
    || (0x13000 <= u && u <= 0x1342f)
    || (0x13440 <= u && u <= 0x13455)
    || (0x13460 <= u && u <= 0x143fa)
    || (0x14400 <= u && u <= 0x14646)
    || (0x16100 <= u && u <= 0x16139)
}

pub open spec fn word_part_16(u: u32) -> bool {
    ||| (0x16800 <= u && u <= 0x16a38)
    ||| (0x16a40 <= u && u <= 0x16a5e)
    ||| (0x16a60 <= u && u <= 0x16a69)
    ||| (0x16a70 <= u && u <= 0x16abe)
    ||| (0x16ac0 <= u && u <= 0x16ac9)
    ||| (0x16ad0 <= u && u <= 0x16aed)
    ||| (0x16af0 <= u && u <= 0x16af4)
    ||| (0x16b00 <= u && u <= 0x16b36)
    ||| (0x16b40 <= u && u <= 0x16b43)
    ||| (0x16b50 <= u && u <= 0x16b59)
    ||| (0x16b63 <= u && u <= 0x16b77)
    ||| (0x16b7d <= u && u <= 0x16b8f)
    ||| (0x16d40 <= u && u <= 0x16d6c)
    ||| (0x16d70 <= u && u <= 0x16d79)
    ||| (0x16e40 <= u && u <= 0x16e7f)
    ||| (0x16f00 <= u && u <= 0x16f4a)
    ||| (0x16f4f <= u && u <= 0x16f87)
    ||| (0x16f8f <= u && u <= 0x16f9f)
    ||| (0x16fe0 <= u && u <= 0x16fe1)
    ||| (0x16fe3 <= u && u <= 0x16fe4)
    ||| (0x16ff0 <= u && u <= 0x16ff1)
    ||| (0x17000 <= u && u <= 0x187f7)
    ||| (0x18800 <= u && u <= 0x18cd5)
    ||| (0x18cff <= u && u <= 0x18d08)
    ||| (0x1aff0 <= u && u <= 0x1aff3)
    ||| (0x1aff5 <= u && u <= 0x1affb)
    ||| (0x1affd <= u && u <= 0x1affe)
    ||| (0x1b000 <= u && u <= 0x1b122)
    ||| (0x1b132 <= u && u <= 0x1b132)
    ||| (0x1b150 <= u && u <= 0x1b152)
    ||| (0x1b155 <= u && u <= 0x1b155)
    ||| (0x1b164 <= u && u <= 0x1b167)
    ||| (0x1b170 <= u && u <= 0x1b2fb)
    ||| (0x1bc00 <= u && u <= 0x1bc6a)
    ||| (0x1bc70 <= u && u <= 0x1bc7c)
    ||| (0x1bc80 <= u && u <= 0x1bc88)
    ||| (0x1bc90 <= u && u <= 0x1bc99)
    ||| (0x1bc9d <= u && u <= 0x1bc9e)
    ||| (0x1ccf0 <= u && u <= 0x1ccf9)
    ||| (0x1cf00 <= u && u <= 0x1cf2d)
}

fn word_part_16_exec(u: u32) -> (r: bool)
    ensures
        r == word_part_16(u),
{
    (0x16800 <= u && u <= 0x16a38)
    || (0x16a40 <= u && u <= 0x16a5e)
    || (0x16a60 <= u && u <= 0x16a69)
    || (0x16a70 <= u && u <= 0x16abe)
    || (0x16ac0 <= u && u <= 0x16ac9)
    || (0x16ad0 <= u && u <= 0x16aed)
    || (0x16af0 <= u && u <= 0x16af4)
    || (0x16b00 <= u && u <= 0x16b36)
    || (0x16b40 <= u && u <= 0x16b43)
    || (0x16b50 <= u && u <= 0x16b59)
    || (0x16b63 <= u && u <= 0x16b77)
    || (0x16b7d <= u && u <= 0x16b8f)
    || (0x16d40 <= u && u <= 0x16d6c)
    || (0x16d70 <= u && u <= 0x16d79)
    || (0x16e40 <= u && u <= 0x16e7f)
    || (0x16f00 <= u && u <= 0x16f4a)
    || (0x16f4f <= u && u <= 0x16f87)
    || (0x16f8f <= u && u <= 0x16f9f)
    || (0x16fe0 <= u && u <= 0x16fe1)
    || (0x16fe3 <= u && u <= 0x16fe4)
    || (0x16ff0 <= u && u <= 0x16ff1)
    || (0x17000 <= u && u <= 0x187f7)
    || (0x18800 <= u && u <= 0x18cd5)
    || (0x18cff <= u && u <= 0x18d08)
    || (0x1aff0 <= u && u <= 0x1aff3)
    || (0x1aff5 <= u && u <= 0x1affb)
    || (0x1affd <= u && u <= 0x1affe)
    || (0x1b000 <= u && u <= 0x1b122)
    || (0x1b132 <= u && u <= 0x1b132)
    || (0x1b150 <= u && u <= 0x1b152)
    || (0x1b155 <= u && u <= 0x1b155)
    || (0x1b164 <= u && u <= 0x1b167)
    || (0x1b170 <= u && u <= 0x1b2fb)
    || (0x1bc00 <= u && u <= 0x1bc6a)
    || (0x1bc70 <= u && u <= 0x1bc7c)
    || (0x1bc80 <= u && u <= 0x1bc88)
    || (0x1bc90 <= u && u <= 0x1bc99)
    || (0x1bc9d <= u && u <= 0x1bc9e)
    || (0x1ccf0 <= u && u <= 0x1ccf9)
    || (0x1cf00 <= u && u <= 0x1cf2d)
}

pub open spec fn word_part_17(u: u32) -> bool {
    ||| (0x1cf30 <= u && u <= 0x1cf46)
    ||| (0x1d165 <= u && u <= 0x1d169)
    ||| (0x1d16d <= u && u <= 0x1d172)
    ||| (0x1d17b <= u && u <= 0x1d182)
    ||| (0x1d185 <= u && u <= 0x1d18b)
    ||| (0x1d1aa <= u && u <= 0x1d1ad)
    ||| (0x1d242 <= u && u <= 0x1d244)
    ||| (0x1d400 <= u && u <= 0x1d454)
    ||| (0x1d456 <= u && u <= 0x1d49c)
    ||| (0x1d49e <= u && u <= 0x1d49f)
    ||| (0x1d4a2 <= u && u <= 0x1d4a2)
    ||| (0x1d4a5 <= u && u <= 0x1d4a6)
    ||| (0x1d4a9 <= u && u <= 0x1d4ac)
    ||| (0x1d4ae <= u && u <= 0x1d4b9)
    ||| (0x1d4bb <= u && u <= 0x1d4bb)
    ||| (0x1d4bd <= u && u <= 0x1d4c3)
    ||| (0x1d4c5 <= u && u <= 0x1d505)
    ||| (0x1d507 <= u && u <= 0x1d50a)
    ||| (0x1d50d <= u && u <= 0x1d514)
    ||| (0x1d516 <= u && u <= 0x1d51c)
    ||| (0x1d51e <= u && u <= 0x1d539)
    ||| (0x1d53b <= u && u <= 0x1d53e)
    ||| (0x1d540 <= u && u <= 0x1d544)
    ||| (0x1d546 <= u && u <= 0x1d546)
    ||| (0x1d54a <= u && u <= 0x1d550)
    ||| (0x1d552 <= u && u <= 0x1d6a5)
    ||| (0x1d6a8 <= u && u <= 0x1d6c0)
    ||| (0x1d6c2 <= u && u <= 0x1d6da)
    ||| (0x1d6dc <= u && u <= 0x1d6fa)
    ||| (0x1d6fc <= u && u <= 0x1d714)
    ||| (0x1d716 <= u && u <= 0x1d734)
    ||| (0x1d736 <= u && u <= 0x1d74e)
    ||| (0x1d750 <= u && u <= 0x1d76e)
    ||| (0x1d770 <= u && u <= 0x1d788)
    ||| (0x1d78a <= u && u <= 0x1d7a8)
    ||| (0x1d7aa <= u && u <= 0x1d7c2)
    ||| (0x1d7c4 <= u && u <= 0x1d7cb)
    ||| (0x1d7ce <= u && u <= 0x1d7ff)
    ||| (0x1da00 <= u && u <= 0x1da36)
    ||| (0x1da3b <= u && u <= 0x1da6c)
}

fn word_part_17_exec(u: u32) -> (r: bool)
    ensures
        r == word_part_17(u),
{
    (0x1cf30 <= u && u <= 0x1cf46)
    || (0x1d165 <= u && u <= 0x1d169)
    || (0x1d16d <= u && u <= 0x1d172)
    || (0x1d17b <= u && u <= 0x1d182)
    || (0x1d185 <= u && u <= 0x1d18b)
    || (0x1d1aa <= u && u <= 0x1d1ad)
    || (0x1d242 <= u && u <= 0x1d244)
    || (0x1d400 <= u && u <= 0x1d454)
    || (0x1d456 <= u && u <= 0x1d49c)
    || (0x1d49e <= u && u <= 0x1d49f)
    || (0x1d4a2 <= u && u <= 0x1d4a2)
    || (0x1d4a5 <= u && u <= 0x1d4a6)
    || (0x1d4a9 <= u && u <= 0x1d4ac)
    || (0x1d4ae <= u && u <= 0x1d4b9)
    || (0x1d4bb <= u && u <= 0x1d4bb)
    || (0x1d4bd <= u && u <= 0x1d4c3)
    || (0x1d4c5 <= u && u <= 0x1d505)
    || (0x1d507 <= u && u <= 0x1d50a)
    || (0x1d50d <= u && u <= 0x1d514)
    || (0x1d516 <= u && u <= 0x1d51c)
    || (0x1d51e <= u && u <= 0x1d539)
    || (0x1d53b <= u && u <= 0x1d53e)
    || (0x1d540 <= u && u <= 0x1d544)
    || (0x1d546 <= u && u <= 0x1d546)
    || (0x1d54a <= u && u <= 0x1d550)
    || (0x1d552 <= u && u <= 0x1d6a5)
    || (0x1d6a8 <= u && u <= 0x1d6c0)
    || (0x1d6c2 <= u && u <= 0x1d6da)
    || (0x1d6dc <= u && u <= 0x1d6fa)
    || (0x1d6fc <= u && u <= 0x1d714)
    || (0x1d716 <= u && u <= 0x1d734)
    || (0x1d736 <= u && u <= 0x1d74e)
    || (0x1d750 <= u && u <= 0x1d76e)
    || (0x1d770 <= u && u <= 0x1d788)
    || (0x1d78a <= u && u <= 0x1d7a8)
    || (0x1d7aa <= u && u <= 0x1d7c2)
    || (0x1d7c4 <= u && u <= 0x1d7cb)
    || (0x1d7ce <= u && u <= 0x1d7ff)
    || (0x1da00 <= u && u <= 0x1da36)
    || (0x1da3b <= u && u <= 0x1da6c)
}

pub open spec fn word_part_18(u: u32) -> bool {
    ||| (0x1da75 <= u && u <= 0x1da75)
    ||| (0x1da84 <= u && u <= 0x1da84)
    ||| (0x1da9b <= u && u <= 0x1da9f)
    ||| (0x1daa1 <= u && u <= 0x1daaf)
    ||| (0x1df00 <= u && u <= 0x1df1e)
    ||| (0x1df25 <= u && u <= 0x1df2a)
    ||| (0x1e000 <= u && u <= 0x1e006)
    ||| (0x1e008 <= u && u <= 0x1e018)
    ||| (0x1e01b <= u && u <= 0x1e021)
    ||| (0x1e023 <= u && u <= 0x1e024)
    ||| (0x1e026 <= u && u <= 0x1e02a)
    ||| (0x1e030 <= u && u <= 0x1e06d)
    ||| (0x1e08f <= u && u <= 0x1e08f)
    ||| (0x1e100 <= u && u <= 0x1e12c)
    ||| (0x1e130 <= u && u <= 0x1e13d)
    ||| (0x1e140 <= u && u <= 0x1e149)
    ||| (0x1e14e <= u && u <= 0x1e14e)
    ||| (0x1e290 <= u && u <= 0x1e2ae)
    ||| (0x1e2c0 <= u && u <= 0x1e2f9)
    ||| (0x1e4d0 <= u && u <= 0x1e4f9)
    ||| (0x1e5d0 <= u && u <= 0x1e5fa)
    ||| (0x1e7e0 <= u && u <= 0x1e7e6)
    ||| (0x1e7e8 <= u && u <= 0x1e7eb)
    ||| (0x1e7ed <= u && u <= 0x1e7ee)
    ||| (0x1e7f0 <= u && u <= 0x1e7fe)
    ||| (0x1e800 <= u && u <= 0x1e8c4)
    ||| (0x1e8d0 <= u && u <= 0x1e8d6)
    ||| (0x1e900 <= u && u <= 0x1e94b)
    ||| (0x1e950 <= u && u <= 0x1e959)
    ||| (0x1ee00 <= u && u <= 0x1ee03)
    ||| (0x1ee05 <= u && u <= 0x1ee1f)
    ||| (0x1ee21 <= u && u <= 0x1ee22)
    ||| (0x1ee24 <= u && u <= 0x1ee24)
    ||| (0x1ee27 <= u && u <= 0x1ee27)
    ||| (0x1ee29 <= u && u <= 0x1ee32)
    ||| (0x1ee34 <= u && u <= 0x1ee37)
    ||| (0x1ee39 <= u && u <= 0x1ee39)
    ||| (0x1ee3b <= u && u <= 0x1ee3b)
    ||| (0x1ee42 <= u && u <= 0x1ee42)
    ||| (0x1ee47 <= u && u <= 0x1ee47)
}

fn word_part_18_exec(u: u32) -> (r: bool)
    ensures
        r == word_part_18(u),
{
    (0x1da75 <= u && u <= 0x1da75)
    || (0x1da84 <= u && u <= 0x1da84)
    || (0x1da9b <= u && u <= 0x1da9f)
    || (0x1daa1 <= u && u <= 0x1daaf)
    || (0x1df00 <= u && u <= 0x1df1e)
    || (0x1df25 <= u && u <= 0x1df2a)
    || (0x1e000 <= u && u <= 0x1e006)
    || (0x1e008 <= u && u <= 0x1e018)
    || (0x1e01b <= u && u <= 0x1e021)
    || (0x1e023 <= u && u <= 0x1e024)
    || (0x1e026 <= u && u <= 0x1e02a)
    || (0x1e030 <= u && u <= 0x1e06d)
    || (0x1e08f <= u && u <= 0x1e08f)
    || (0x1e100 <= u && u <= 0x1e12c)
    || (0x1e130 <= u && u <= 0x1e13d)
    || (0x1e140 <= u && u <= 0x1e149)
    || (0x1e14e <= u && u <= 0x1e14e)
    || (0x1e290 <= u && u <= 0x1e2ae)
    || (0x1e2c0 <= u && u <= 0x1e2f9)
    || (0x1e4d0 <= u && u <= 0x1e4f9)
    || (0x1e5d0 <= u && u <= 0x1e5fa)
    || (0x1e7e0 <= u && u <= 0x1e7e6)
    || (0x1e7e8 <= u && u <= 0x1e7eb)
    || (0x1e7ed <= u && u <= 0x1e7ee)
    || (0x1e7f0 <= u && u <= 0x1e7fe)
    || (0x1e800 <= u && u <= 0x1e8c4)
    || (0x1e8d0 <= u && u <= 0x1e8d6)
    || (0x1e900 <= u && u <= 0x1e94b)
    || (0x1e950 <= u && u <= 0x1e959)
    || (0x1ee00 <= u && u <= 0x1ee03)
    || (0x1ee05 <= u && u <= 0x1ee1f)
    || (0x1ee21 <= u && u <= 0x1ee22)
    || (0x1ee24 <= u && u <= 0x1ee24)
    || (0x1ee27 <= u && u <= 0x1ee27)
    || (0x1ee29 <= u && u <= 0x1ee32)
    || (0x1ee34 <= u && u <= 0x1ee37)
    || (0x1ee39 <= u && u <= 0x1ee39)
    || (0x1ee3b <= u && u <= 0x1ee3b)
    || (0x1ee42 <= u && u <= 0x1ee42)
    || (0x1ee47 <= u && u <= 0x1ee47)
}

pub open spec fn word_part_19(u: u32) -> bool {
    ||| (0x1ee49 <= u && u <= 0x1ee49)
    ||| (0x1ee4b <= u && u <= 0x1ee4b)
    ||| (0x1ee4d <= u && u <= 0x1ee4f)
    ||| (0x1ee51 <= u && u <= 0x1ee52)
    ||| (0x1ee54 <= u && u <= 0x1ee54)
    ||| (0x1ee57 <= u && u <= 0x1ee57)
    ||| (0x1ee59 <= u && u <= 0x1ee59)
    ||| (0x1ee5b <= u && u <= 0x1ee5b)
    ||| (0x1ee5d <= u && u <= 0x1ee5d)
    ||| (0x1ee5f <= u && u <= 0x1ee5f)
    ||| (0x1ee61 <= u && u <= 0x1ee62)
    ||| (0x1ee64 <= u && u <= 0x1ee64)
    ||| (0x1ee67 <= u && u <= 0x1ee6a)
    ||| (0x1ee6c <= u && u <= 0x1ee72)
    ||| (0x1ee74 <= u && u <= 0x1ee77)
    ||| (0x1ee79 <= u && u <= 0x1ee7c)
    ||| (0x1ee7e <= u && u <= 0x1ee7e)
    ||| (0x1ee80 <= u && u <= 0x1ee89)
    ||| (0x1ee8b <= u && u <= 0x1ee9b)
    ||| (0x1eea1 <= u && u <= 0x1eea3)
    ||| (0x1eea5 <= u && u <= 0x1eea9)
    ||| (0x1eeab <= u && u <= 0x1eebb)
    ||| (0x1f130 <= u && u <= 0x1f149)
    ||| (0x1f150 <= u && u <= 0x1f169)
    ||| (0x1f170 <= u && u <= 0x1f189)
    ||| (0x1fbf0 <= u && u <= 0x1fbf9)
    ||| (0x20000 <= u && u <= 0x2a6df)
    ||| (0x2a700 <= u && u <= 0x2b739)
    ||| (0x2b740 <= u && u <= 0x2b81d)
    ||| (0x2b820 <= u && u <= 0x2cea1)
    ||| (0x2ceb0 <= u && u <= 0x2ebe0)
    ||| (0x2ebf0 <= u && u <= 0x2ee5d)
    ||| (0x2f800 <= u && u <= 0x2fa1d)
    ||| (0x30000 <= u && u <= 0x3134a)
    ||| (0x31350 <= u && u <= 0x323af)
    ||| (0xe0100 <= u && u <= 0xe01ef)
}

fn word_part_19_exec(u: u32) -> (r: bool)
    ensures
        r == word_part_19(u),
{
    (0x1ee49 <= u && u <= 0x1ee49)
    || (0x1ee4b <= u && u <= 0x1ee4b)
    || (0x1ee4d <= u && u <= 0x1ee4f)
    || (0x1ee51 <= u && u <= 0x1ee52)
    || (0x1ee54 <= u && u <= 0x1ee54)
    || (0x1ee57 <= u && u <= 0x1ee57)
    || (0x1ee59 <= u && u <= 0x1ee59)
    || (0x1ee5b <= u && u <= 0x1ee5b)
    || (0x1ee5d <= u && u <= 0x1ee5d)
    || (0x1ee5f <= u && u <= 0x1ee5f)
    || (0x1ee61 <= u && u <= 0x1ee62)
    || (0x1ee64 <= u && u <= 0x1ee64)
    || (0x1ee67 <= u && u <= 0x1ee6a)
    || (0x1ee6c <= u && u <= 0x1ee72)
    || (0x1ee74 <= u && u <= 0x1ee77)
    || (0x1ee79 <= u && u <= 0x1ee7c)
    || (0x1ee7e <= u && u <= 0x1ee7e)
    || (0x1ee80 <= u && u <= 0x1ee89)
    || (0x1ee8b <= u && u <= 0x1ee9b)
    || (0x1eea1 <= u && u <= 0x1eea3)
    || (0x1eea5 <= u && u <= 0x1eea9)
    || (0x1eeab <= u && u <= 0x1eebb)
    || (0x1f130 <= u && u <= 0x1f149)
    || (0x1f150 <= u && u <= 0x1f169)
    || (0x1f170 <= u && u <= 0x1f189)
    || (0x1fbf0 <= u && u <= 0x1fbf9)
    || (0x20000 <= u && u <= 0x2a6df)
    || (0x2a700 <= u && u <= 0x2b739)
    || (0x2b740 <= u && u <= 0x2b81d)
    || (0x2b820 <= u && u <= 0x2cea1)
    || (0x2ceb0 <= u && u <= 0x2ebe0)
    || (0x2ebf0 <= u && u <= 0x2ee5d)
    || (0x2f800 <= u && u <= 0x2fa1d)
    || (0x30000 <= u && u <= 0x3134a)
    || (0x31350 <= u && u <= 0x323af)
    || (0xe0100 <= u && u <= 0xe01ef)
}

/// A word character (`\w`) of Unicode regular expressions: a letter, a mark, a decimal
/// digit, a connector punctuation or a join control (Unicode 16).
pub open spec fn is_word_char(c: char) -> bool {
    let u = c as u32;
    ||| word_part_0(u)
    ||| word_part_1(u)
    ||| word_part_2(u)
    ||| word_part_3(u)
    ||| word_part_4(u)
    ||| word_part_5(u)
    ||| word_part_6(u)
    ||| word_part_7(u)
    ||| word_part_8(u)
    ||| word_part_9(u)
    ||| word_part_10(u)
    ||| word_part_11(u)
    ||| word_part_12(u)
    ||| word_part_13(u)
    ||| word_part_14(u)
    ||| word_part_15(u)
    ||| word_part_16(u)
    ||| word_part_17(u)
    ||| word_part_18(u)
    ||| word_part_19(u)
}

/// Whether `c` is a word character (`\w`).
pub fn word_char(c: char) -> (r: bool)
    ensures
        r == is_word_char(c),
{
    let u = c as u32;
    word_part_0_exec(u)
    || word_part_1_exec(u)
    || word_part_2_exec(u)
    || word_part_3_exec(u)
    || word_part_4_exec(u)
    || word_part_5_exec(u)
    || word_part_6_exec(u)
    || word_part_7_exec(u)
    || word_part_8_exec(u)
    || word_part_9_exec(u)
    || word_part_10_exec(u)
    || word_part_11_exec(u)
    || word_part_12_exec(u)
    || word_part_13_exec(u)
    || word_part_14_exec(u)
    || word_part_15_exec(u)
    || word_part_16_exec(u)
    || word_part_17_exec(u)
    || word_part_18_exec(u)
    || word_part_19_exec(u)
}

} // verus!
