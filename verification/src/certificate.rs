//! Powers of an element of large order modulo the order of the groups.
use vstd::prelude::*;

use crate::field;
use crate::units;

verus! {

/// An element whose order is a power of two times the squares of two primes.
pub open spec fn element() -> nat {
    0x31aea2f836f51174050e1eabd824ad064f68ec321f2bc1d3e279a1eb2856e040nat
}

/// The power of the element whose exponent lacks one factor of the first prime.
pub open spec fn first_power() -> nat {
    0xa59bce66d135443a905cbe27f7ef0033465237fca4ffdb9927f6206dba51b0anat
}

/// The inverse of the first power less one.
pub open spec fn first_cofactor() -> nat {
    0x335a960203cb799e9d63ea562b4c2efb725b0bac6fad4ccc35c862c4a8b79d53nat
}

/// The power of the element whose exponent lacks one factor of the second prime.
pub open spec fn second_power() -> nat {
    0x6066d68091422459ea719b5c257f54a3a5509ba90dd017135d4facfcccdf73d6nat
}

/// The inverse of the second power less one.
pub open spec fn second_cofactor() -> nat {
    0x4ef49a8d838031b2174f19950fc68a46adf3dc6ba38b27920f44717257d57d07nat
}

/// The residue of the power of `b` with the exponent `e` is `v`.
spec fn power_is(b: nat, e: nat, v: nat) -> bool {
    vstd::arithmetic::power::pow(b as int, e) % (field::order() as int) == v
}

proof fn start(b: nat)
    requires
        b < 0x73eda753299d7d483339d80809a1d80553bda402fffe5bfeffffffff00000001nat,
    ensures
        power_is(b, 1, b),
{
    reveal(field::order);
    vstd::arithmetic::power::lemma_pow1(b as int);
    vstd::arithmetic::div_mod::lemma_small_mod(b, field::order());
}

proof fn square(b: nat, e: nat, v: nat, w: nat)
    requires
        power_is(b, e, v),
        (v * v) % 0x73eda753299d7d483339d80809a1d80553bda402fffe5bfeffffffff00000001nat == w,
    ensures
        power_is(b, 2 * e, w),
{
    reveal(field::order);
    let p = vstd::arithmetic::power::pow(b as int, e);
    vstd::arithmetic::power::lemma_pow_adds(b as int, e, e);
    vstd::arithmetic::div_mod::lemma_mul_mod_noop_general(p, p, field::order() as int);
}

proof fn next(b: nat, e: nat, v: nat, c: nat, w: nat)
    requires
        power_is(b, e, v),
        b == c,
        (v * c) % 0x73eda753299d7d483339d80809a1d80553bda402fffe5bfeffffffff00000001nat == w,
    ensures
        power_is(b, e + 1, w),
{
    reveal(field::order);
    let p = vstd::arithmetic::power::pow(b as int, e);
    vstd::arithmetic::power::lemma_pow_adds(b as int, e, 1);
    vstd::arithmetic::power::lemma_pow1(b as int);
    vstd::arithmetic::div_mod::lemma_mul_mod_noop_general(p, b as int, field::order() as int);
    vstd::arithmetic::div_mod::lemma_mul_mod_noop_general(v as int, b as int, field::order() as int);
    vstd::arithmetic::div_mod::lemma_mod_twice(p, field::order() as int);
}

/// A power of a power.
proof fn compose(b: nat, e: nat, v: nat, f: nat, w: nat)
    requires
        power_is(b, e, v),
        power_is(v, f, w),
    ensures
        power_is(b, e * f, w),
{
    field::lemma_order_large();
    vstd::arithmetic::power::lemma_pow_multiplies(b as int, e, f);
    vstd::arithmetic::power::lemma_pow_mod_noop(
        vstd::arithmetic::power::pow(b as int, e),
        f,
        field::order() as int,
    );
}

/// The element to the power of the first prime.
proof fn chain_first(b: nat)
    requires
        b == 0x31aea2f836f51174050e1eabd824ad064f68ec321f2bc1d3e279a1eb2856e040nat,
    ensures
        power_is(b, 906349, 0x4494c9aec22a3f25e7dd20d9f794401b8c91db536d17bba785959491e682e252nat),
{
    start(b);
    square(b, 1, 0x31aea2f836f51174050e1eabd824ad064f68ec321f2bc1d3e279a1eb2856e040nat, 0xb14a10e5ff60adc9a82ab6a55ead7f42a46c05033bc721c9c16ddc5bdc614ebnat);
    next(b, 2, 0xb14a10e5ff60adc9a82ab6a55ead7f42a46c05033bc721c9c16ddc5bdc614ebnat, 0x31aea2f836f51174050e1eabd824ad064f68ec321f2bc1d3e279a1eb2856e040nat, 0x68eb2c07f3679110e3e02126769e2e81a5b0c708ddbc02b983f828ffb58c8bf2nat);
    square(b, 3, 0x68eb2c07f3679110e3e02126769e2e81a5b0c708ddbc02b983f828ffb58c8bf2nat, 0x5a743760f4b597001d5c6d13e6a6f5f0e926826ea3ed355f4f51b8508df79c74nat);
    square(b, 6, 0x5a743760f4b597001d5c6d13e6a6f5f0e926826ea3ed355f4f51b8508df79c74nat, 0x4a0ce1334145ba061538cf75b3ca65c6033839d2616a8e650291bdfb0054de89nat);
    next(b, 12, 0x4a0ce1334145ba061538cf75b3ca65c6033839d2616a8e650291bdfb0054de89nat, 0x31aea2f836f51174050e1eabd824ad064f68ec321f2bc1d3e279a1eb2856e040nat, 0x69dbd2562fe24c0a3fe09e771d7837f4be94460e6d9ff37f52c7b6ac6ecc67e3nat);
    square(b, 13, 0x69dbd2562fe24c0a3fe09e771d7837f4be94460e6d9ff37f52c7b6ac6ecc67e3nat, 0x72b68d4c262500b50c9068fbbe04d7825a280ca986da54118b7455f50d363becnat);
    next(b, 26, 0x72b68d4c262500b50c9068fbbe04d7825a280ca986da54118b7455f50d363becnat, 0x31aea2f836f51174050e1eabd824ad064f68ec321f2bc1d3e279a1eb2856e040nat, 0x4cfadae05b19580070eba8cc4d1285cede9ada3c047a09637c04c737cc3cf0f6nat);
    square(b, 27, 0x4cfadae05b19580070eba8cc4d1285cede9ada3c047a09637c04c737cc3cf0f6nat, 0x7063aa91256b813243d12d0d871fae1c954b609feb1c5f192dde1619650a32danat);
    next(b, 54, 0x7063aa91256b813243d12d0d871fae1c954b609feb1c5f192dde1619650a32danat, 0x31aea2f836f51174050e1eabd824ad064f68ec321f2bc1d3e279a1eb2856e040nat, 0x3ed4e4333f19543230eb8c468aaa6c6ca2a97e93f287c77915782c9eb6a6e6d5nat);
    square(b, 55, 0x3ed4e4333f19543230eb8c468aaa6c6ca2a97e93f287c77915782c9eb6a6e6d5nat, 0x16b6ec1a1b1498f08e14ea74019084da1a298350e5470a872b94febddca9a8f9nat);
    square(b, 110, 0x16b6ec1a1b1498f08e14ea74019084da1a298350e5470a872b94febddca9a8f9nat, 0x325d84d93400891593964f3e41dcfbf3cb771da66ba1ce7ead0d9e25671b538anat);
    next(b, 220, 0x325d84d93400891593964f3e41dcfbf3cb771da66ba1ce7ead0d9e25671b538anat, 0x31aea2f836f51174050e1eabd824ad064f68ec321f2bc1d3e279a1eb2856e040nat, 0x6554f346641ec260cd7ec47b0f34a7698a102f5cb7b428d9c64cc52b86329b74nat);
    square(b, 221, 0x6554f346641ec260cd7ec47b0f34a7698a102f5cb7b428d9c64cc52b86329b74nat, 0x32b937c397a89e3a77461a20dbf88f45358adf53a7f6afb704c195cfc9628418nat);
    square(b, 442, 0x32b937c397a89e3a77461a20dbf88f45358adf53a7f6afb704c195cfc9628418nat, 0x224d0821624c595b1b8de45868baf2865dc6cc27beaf90ba3f61988fab375a7enat);
    next(b, 884, 0x224d0821624c595b1b8de45868baf2865dc6cc27beaf90ba3f61988fab375a7enat, 0x31aea2f836f51174050e1eabd824ad064f68ec321f2bc1d3e279a1eb2856e040nat, 0x25bba633e882ae3348cd1d6405a6a494b545ae89f5969db688999d158352ac44nat);
    square(b, 885, 0x25bba633e882ae3348cd1d6405a6a494b545ae89f5969db688999d158352ac44nat, 0x47201d44b25f6e53413da050cd129bb3f747b162a15f0cafafd011e7c65eebbbnat);
    square(b, 1770, 0x47201d44b25f6e53413da050cd129bb3f747b162a15f0cafafd011e7c65eebbbnat, 0x61841007f502996bab9fe64e5d05b1c727bad7b65aa2a0408dc4903e9cff5ff0nat);
    square(b, 3540, 0x61841007f502996bab9fe64e5d05b1c727bad7b65aa2a0408dc4903e9cff5ff0nat, 0x255a9ad06707c5f4506e3472c7193f96d1c82c06cc5f0e3a5e501d0243b6910enat);
    square(b, 7080, 0x255a9ad06707c5f4506e3472c7193f96d1c82c06cc5f0e3a5e501d0243b6910enat, 0x6cb4a6c6000dd79860fb6f927d6a56c46e71379e22e96beabcf90fe152f18b67nat);
    next(b, 14160, 0x6cb4a6c6000dd79860fb6f927d6a56c46e71379e22e96beabcf90fe152f18b67nat, 0x31aea2f836f51174050e1eabd824ad064f68ec321f2bc1d3e279a1eb2856e040nat, 0x5cad6e8eb0e14a14a032d14042db67afa8bf42b95ed7807d315eeeaaba2d8d75nat);
    square(b, 14161, 0x5cad6e8eb0e14a14a032d14042db67afa8bf42b95ed7807d315eeeaaba2d8d75nat, 0x619f121d7b97201f283c2d0acf6196c2f9ac03818b77a76ff039c5ee3a8a0fbfnat);
    next(b, 28322, 0x619f121d7b97201f283c2d0acf6196c2f9ac03818b77a76ff039c5ee3a8a0fbfnat, 0x31aea2f836f51174050e1eabd824ad064f68ec321f2bc1d3e279a1eb2856e040nat, 0x1c9e1474568e2c0befe68ca5d261839127b9d9f77004b2469b9232179418bcb3nat);
    square(b, 28323, 0x1c9e1474568e2c0befe68ca5d261839127b9d9f77004b2469b9232179418bcb3nat, 0x605db068a4ba25137634dc3cfca326b5f3c15a0bb71e23e39261308bb7b4c46anat);
    square(b, 56646, 0x605db068a4ba25137634dc3cfca326b5f3c15a0bb71e23e39261308bb7b4c46anat, 0x57b30565011b98c3d0704ad797e30e5f3671f54d08a70bac51cea15dbe68e98enat);
    next(b, 113292, 0x57b30565011b98c3d0704ad797e30e5f3671f54d08a70bac51cea15dbe68e98enat, 0x31aea2f836f51174050e1eabd824ad064f68ec321f2bc1d3e279a1eb2856e040nat, 0x5f872fb993d7c38bfbfb858932d7837f3381711c42e32918dfc975fb1a111839nat);
    square(b, 113293, 0x5f872fb993d7c38bfbfb858932d7837f3381711c42e32918dfc975fb1a111839nat, 0x1a8d430288985179d7c7defb77e8fc86b1eb0c073cb838abbbea23c435aa9326nat);
    next(b, 226586, 0x1a8d430288985179d7c7defb77e8fc86b1eb0c073cb838abbbea23c435aa9326nat, 0x31aea2f836f51174050e1eabd824ad064f68ec321f2bc1d3e279a1eb2856e040nat, 0x6bc67e8b5eddd4c2ee1d8ec47981965d1ca0aaf071ec53a01a58c3a2477ae621nat);
    square(b, 226587, 0x6bc67e8b5eddd4c2ee1d8ec47981965d1ca0aaf071ec53a01a58c3a2477ae621nat, 0x68de9d8c8e3d67dcd96647015eeb95836a400f76ea4e8e045b1feaf72af418fanat);
    square(b, 453174, 0x68de9d8c8e3d67dcd96647015eeb95836a400f76ea4e8e045b1feaf72af418fanat, 0x3acd5a404700606ba69e98eabd25a41c25a98596f21252f2a465059b0c831b80nat);
    next(b, 906348, 0x3acd5a404700606ba69e98eabd25a41c25a98596f21252f2a465059b0c831b80nat, 0x31aea2f836f51174050e1eabd824ad064f68ec321f2bc1d3e279a1eb2856e040nat, 0x4494c9aec22a3f25e7dd20d9f794401b8c91db536d17bba785959491e682e252nat);
}

/// The result to the power of the second prime.
proof fn chain_both(b: nat)
    requires
        b == 0x4494c9aec22a3f25e7dd20d9f794401b8c91db536d17bba785959491e682e252nat,
    ensures
        power_is(b, 254760293, 0x5e575e86bb7d0957508921973a746f87450c89be548484703ddb05b9e6363e75nat),
{
    start(b);
    square(b, 1, 0x4494c9aec22a3f25e7dd20d9f794401b8c91db536d17bba785959491e682e252nat, 0x462436f8c3d08b58430e4357ece19c631392d265e92f8aacc3e771d6faa0d486nat);
    next(b, 2, 0x462436f8c3d08b58430e4357ece19c631392d265e92f8aacc3e771d6faa0d486nat, 0x4494c9aec22a3f25e7dd20d9f794401b8c91db536d17bba785959491e682e252nat, 0x4c95bc571f975d4727b85fefb8b1d1e6acec9256ee278248ce9e8a72caf66c2nat);
    square(b, 3, 0x4c95bc571f975d4727b85fefb8b1d1e6acec9256ee278248ce9e8a72caf66c2nat, 0x2efe5be9d965803f0ea7449a7fe6124df43d71cb55d92b15aa7b9f1add6f5722nat);
    next(b, 6, 0x2efe5be9d965803f0ea7449a7fe6124df43d71cb55d92b15aa7b9f1add6f5722nat, 0x4494c9aec22a3f25e7dd20d9f794401b8c91db536d17bba785959491e682e252nat, 0x32a44779807d06c69f2689af83ee4348dc2c77e23a3948e5eb48640cbf6beb57nat);
    square(b, 7, 0x32a44779807d06c69f2689af83ee4348dc2c77e23a3948e5eb48640cbf6beb57nat, 0x6edccfafb568e50f8609eec7831aa46a129e8f8fc9534c9445b5972dcdf9578cnat);
    next(b, 14, 0x6edccfafb568e50f8609eec7831aa46a129e8f8fc9534c9445b5972dcdf9578cnat, 0x4494c9aec22a3f25e7dd20d9f794401b8c91db536d17bba785959491e682e252nat, 0x44f75a2a71080322185eae84e3d0d00cc4ecee64d893251ee26e53018ab51f32nat);
    square(b, 15, 0x44f75a2a71080322185eae84e3d0d00cc4ecee64d893251ee26e53018ab51f32nat, 0x6de3c4842f6b04e3790459f6a3b41e99bb0b25f70fd6e68fa703fb167eb6552dnat);
    square(b, 30, 0x6de3c4842f6b04e3790459f6a3b41e99bb0b25f70fd6e68fa703fb167eb6552dnat, 0x5cc1432c012065f711f66b76aaaea3aba02d0c634f8cf8c68ac476f82de55fd3nat);
    square(b, 60, 0x5cc1432c012065f711f66b76aaaea3aba02d0c634f8cf8c68ac476f82de55fd3nat, 0x3fcf271e6bb7ffd8001e5f0657024fe74afa254a80172c398f57f9378a9cf5bdnat);
    next(b, 120, 0x3fcf271e6bb7ffd8001e5f0657024fe74afa254a80172c398f57f9378a9cf5bdnat, 0x4494c9aec22a3f25e7dd20d9f794401b8c91db536d17bba785959491e682e252nat, 0x5bec21a43aa890daf47af9ef3e4d6f19579fd5acbd471f438deae93b0016ea91nat);
    square(b, 121, 0x5bec21a43aa890daf47af9ef3e4d6f19579fd5acbd471f438deae93b0016ea91nat, 0x3528c82a4264410a39bb9c235541fab647f1367f724c8245f9e0732f5c6bb070nat);
    square(b, 242, 0x3528c82a4264410a39bb9c235541fab647f1367f724c8245f9e0732f5c6bb070nat, 0x58b5873868cc3346d75724040722ff24b5b3363ce3d7808e62184d783f513cacnat);
    next(b, 484, 0x58b5873868cc3346d75724040722ff24b5b3363ce3d7808e62184d783f513cacnat, 0x4494c9aec22a3f25e7dd20d9f794401b8c91db536d17bba785959491e682e252nat, 0x34db6fd653194dba4fc86c313b8bca50db3fb5c09813e095a7bd1b3c9a4df1a7nat);
    square(b, 485, 0x34db6fd653194dba4fc86c313b8bca50db3fb5c09813e095a7bd1b3c9a4df1a7nat, 0x5d2ad08e8e3791ec8eb675f6457d735462490433f54439ccad1aeef29c3b718dnat);
    next(b, 970, 0x5d2ad08e8e3791ec8eb675f6457d735462490433f54439ccad1aeef29c3b718dnat, 0x4494c9aec22a3f25e7dd20d9f794401b8c91db536d17bba785959491e682e252nat, 0x1b848552b9661ac034019d2917006b4ebe07e06692b295f328c012a548ca9b27nat);
    square(b, 971, 0x1b848552b9661ac034019d2917006b4ebe07e06692b295f328c012a548ca9b27nat, 0x1200cb368ec3c1e2f8baed4a18381414f845e2091d61f560ff4a174f81fc546nat);
    next(b, 1942, 0x1200cb368ec3c1e2f8baed4a18381414f845e2091d61f560ff4a174f81fc546nat, 0x4494c9aec22a3f25e7dd20d9f794401b8c91db536d17bba785959491e682e252nat, 0xea512a81b6fe5f519afaf7569e93ebbd774bbcca9bb11675c8786a15c51d93enat);
    square(b, 1943, 0xea512a81b6fe5f519afaf7569e93ebbd774bbcca9bb11675c8786a15c51d93enat, 0x542185281c2312b7de3c78d0e25ea6bb0ad0da939169dfd05f17799340d2bfbbnat);
    next(b, 3886, 0x542185281c2312b7de3c78d0e25ea6bb0ad0da939169dfd05f17799340d2bfbbnat, 0x4494c9aec22a3f25e7dd20d9f794401b8c91db536d17bba785959491e682e252nat, 0x3825b53cb633c310fab27f57511ba4a0205c24d76dee547e4f7fa4288c47e448nat);
    square(b, 3887, 0x3825b53cb633c310fab27f57511ba4a0205c24d76dee547e4f7fa4288c47e448nat, 0x275449547fc4bc2ecb0b1d5420e5d21b267dea78ea8dd1c2eec6745a63bfe83fnat);
    square(b, 7774, 0x275449547fc4bc2ecb0b1d5420e5d21b267dea78ea8dd1c2eec6745a63bfe83fnat, 0x4ee4dce52bda5514b5188c1c557bd00a19579684ffca7fe1f0b646e75106ff5fnat);
    next(b, 15548, 0x4ee4dce52bda5514b5188c1c557bd00a19579684ffca7fe1f0b646e75106ff5fnat, 0x4494c9aec22a3f25e7dd20d9f794401b8c91db536d17bba785959491e682e252nat, 0xa5b0b93b0856ac80c11972067e721d4f09d3f7e68a9a3b898e445968c580c02nat);
    square(b, 15549, 0xa5b0b93b0856ac80c11972067e721d4f09d3f7e68a9a3b898e445968c580c02nat, 0x2626c1d0516fe969ecd84da779e4d683a2e84d52f95d655ef1d67a95f2b82f9anat);
    square(b, 31098, 0x2626c1d0516fe969ecd84da779e4d683a2e84d52f95d655ef1d67a95f2b82f9anat, 0x146ba57570a125f316585211fd2ae1d55b5fd31689381ffb1b9e1c9361910259nat);
    next(b, 62196, 0x146ba57570a125f316585211fd2ae1d55b5fd31689381ffb1b9e1c9361910259nat, 0x4494c9aec22a3f25e7dd20d9f794401b8c91db536d17bba785959491e682e252nat, 0x25c46040df9a34eacfce8ac2c21544022920a60fc4031d6d66599b21c2598b75nat);
    square(b, 62197, 0x25c46040df9a34eacfce8ac2c21544022920a60fc4031d6d66599b21c2598b75nat, 0x68631fde5e6faf0a822ca2cbfe3c7223391abcb234bd78e30930329ba63e55e3nat);
    square(b, 124394, 0x68631fde5e6faf0a822ca2cbfe3c7223391abcb234bd78e30930329ba63e55e3nat, 0x2e85457a717d616866cfcc02b10fc475684fd63f913c38907b7b5973d382836cnat);
    next(b, 248788, 0x2e85457a717d616866cfcc02b10fc475684fd63f913c38907b7b5973d382836cnat, 0x4494c9aec22a3f25e7dd20d9f794401b8c91db536d17bba785959491e682e252nat, 0x70b59ca8209dc88fde34c8a9d338819f4ba21c3b26c323b3e77a80d3453fd67anat);
    square(b, 248789, 0x70b59ca8209dc88fde34c8a9d338819f4ba21c3b26c323b3e77a80d3453fd67anat, 0x31b5916d4c08d208ccad02428804f8fd1e1ff487a18b32e4fc7e4e118a41f521nat);
    square(b, 497578, 0x31b5916d4c08d208ccad02428804f8fd1e1ff487a18b32e4fc7e4e118a41f521nat, 0x44e0d8ff34c40bcf4cd0af3e95253e751b60b8f1a68a06b866e3db772238214enat);
    next(b, 995156, 0x44e0d8ff34c40bcf4cd0af3e95253e751b60b8f1a68a06b866e3db772238214enat, 0x4494c9aec22a3f25e7dd20d9f794401b8c91db536d17bba785959491e682e252nat, 0x2b027c4b86e64c270f2cfd24ab8fb0403fad6585d47c040c560897d3327a6640nat);
    square(b, 995157, 0x2b027c4b86e64c270f2cfd24ab8fb0403fad6585d47c040c560897d3327a6640nat, 0x5722724594f6b986f024051b349ad38f77eee7cd5cdea35f12779fea68955e70nat);
    square(b, 1990314, 0x5722724594f6b986f024051b349ad38f77eee7cd5cdea35f12779fea68955e70nat, 0x5ab8a6c0cf5426b7b8eca70c7491af1f65fa5f18c64d95704796dee25ef3b9c3nat);
    next(b, 3980628, 0x5ab8a6c0cf5426b7b8eca70c7491af1f65fa5f18c64d95704796dee25ef3b9c3nat, 0x4494c9aec22a3f25e7dd20d9f794401b8c91db536d17bba785959491e682e252nat, 0xcec0b037ad597126555da4ab83ad7ba1457ac9f5ef26f99f34aaf96045622bnat);
    square(b, 3980629, 0xcec0b037ad597126555da4ab83ad7ba1457ac9f5ef26f99f34aaf96045622bnat, 0x3aef2f7f462232f665fb978a1f4c8bd358edc2c9636e30d4c7a6ec8b052972a3nat);
    next(b, 7961258, 0x3aef2f7f462232f665fb978a1f4c8bd358edc2c9636e30d4c7a6ec8b052972a3nat, 0x4494c9aec22a3f25e7dd20d9f794401b8c91db536d17bba785959491e682e252nat, 0x6f1144674b10d39e1a70cc08fe4408acef136406d628d822a4b0902ebc0000aenat);
    square(b, 7961259, 0x6f1144674b10d39e1a70cc08fe4408acef136406d628d822a4b0902ebc0000aenat, 0x4ad670d506bfb261ee403cb3edbcebdf5fdde31cc76419a621aa01ea80d64e2enat);
    square(b, 15922518, 0x4ad670d506bfb261ee403cb3edbcebdf5fdde31cc76419a621aa01ea80d64e2enat, 0x6b6b7540db5e6c57d3f99710626b4059fbb122e7f65391c7b07e79d9a215b3e6nat);
    square(b, 31845036, 0x6b6b7540db5e6c57d3f99710626b4059fbb122e7f65391c7b07e79d9a215b3e6nat, 0x470090580c2d1fa120ffce91118c990699454f94d976c748dcac811ed23792d4nat);
    next(b, 63690072, 0x470090580c2d1fa120ffce91118c990699454f94d976c748dcac811ed23792d4nat, 0x4494c9aec22a3f25e7dd20d9f794401b8c91db536d17bba785959491e682e252nat, 0x4db861964e02e6b1f50a4e10ea724c9d80c1def3cb8b726495941e41f5818b39nat);
    square(b, 63690073, 0x4db861964e02e6b1f50a4e10ea724c9d80c1def3cb8b726495941e41f5818b39nat, 0x1ad4fee319acf6a9951a4fa0836f62ca206aaa8382ecc95df4368ac4b161b94cnat);
    square(b, 127380146, 0x1ad4fee319acf6a9951a4fa0836f62ca206aaa8382ecc95df4368ac4b161b94cnat, 0x2d9e55c24731650c0dcbe32d39127cfa7f12fb6b3ab5d7d72fdbc4fbfbfac84nat);
    next(b, 254760292, 0x2d9e55c24731650c0dcbe32d39127cfa7f12fb6b3ab5d7d72fdbc4fbfbfac84nat, 0x4494c9aec22a3f25e7dd20d9f794401b8c91db536d17bba785959491e682e252nat, 0x5e575e86bb7d0957508921973a746f87450c89be548484703ddb05b9e6363e75nat);
}

/// The result to the power of two to the thirty-second.
proof fn chain_twos(b: nat)
    requires
        b == 0x5e575e86bb7d0957508921973a746f87450c89be548484703ddb05b9e6363e75nat,
    ensures
        power_is(b, 4294967296, 0x609dfc52cef06ea1f32988522de990e802cfd18ab8dc733783d34a6cb4cd7559nat),
{
    start(b);
    square(b, 1, 0x5e575e86bb7d0957508921973a746f87450c89be548484703ddb05b9e6363e75nat, 0x15385f9d829aa3d4aaa86e1e3e4b16be69f483cf767d0f38e32ac5651168141cnat);
    square(b, 2, 0x15385f9d829aa3d4aaa86e1e3e4b16be69f483cf767d0f38e32ac5651168141cnat, 0x153e0720e1e510199a62ecf3f9f2c9e94ed1c458846c4aa495ca8001f0a7d2e2nat);
    square(b, 4, 0x153e0720e1e510199a62ecf3f9f2c9e94ed1c458846c4aa495ca8001f0a7d2e2nat, 0x247383d03dba7f492bcbb6f2966ee7c3395729fc2a5f89f643421bb89b33506enat);
    square(b, 8, 0x247383d03dba7f492bcbb6f2966ee7c3395729fc2a5f89f643421bb89b33506enat, 0x2464c69ac51493cf610fd5c7d98e79827d1a1fab55c5964f75ffe1d580bd714nat);
    square(b, 16, 0x2464c69ac51493cf610fd5c7d98e79827d1a1fab55c5964f75ffe1d580bd714nat, 0x726e6a6b15cc076d55a66291e91f6df4cefd4fdedc9be062db41cfb367595d70nat);
    square(b, 32, 0x726e6a6b15cc076d55a66291e91f6df4cefd4fdedc9be062db41cfb367595d70nat, 0x17cf867642801cc88df2fc87ba4e9bd4b75005caa367e1be242a0fa5f67ed897nat);
    square(b, 64, 0x17cf867642801cc88df2fc87ba4e9bd4b75005caa367e1be242a0fa5f67ed897nat, 0x18faa560fe59295f3050010da432e5d599659c091f7d2785d04bd714686a6612nat);
    square(b, 128, 0x18faa560fe59295f3050010da432e5d599659c091f7d2785d04bd714686a6612nat, 0x1614932712ea1b87eaccd237d181e29cb81891cf0baac0447711dd87e916bdf2nat);
    square(b, 256, 0x1614932712ea1b87eaccd237d181e29cb81891cf0baac0447711dd87e916bdf2nat, 0x42297f53a6cc9f1e980e3f70a288cbc88ab39a31ebfeb62f8047168ad15399fnat);
    square(b, 512, 0x42297f53a6cc9f1e980e3f70a288cbc88ab39a31ebfeb62f8047168ad15399fnat, 0x38c4fe59c4e5a1076b8ad5f5a72f78dfddd515a8f1c9fac4c952cea8c55a0560nat);
    square(b, 1024, 0x38c4fe59c4e5a1076b8ad5f5a72f78dfddd515a8f1c9fac4c952cea8c55a0560nat, 0x573253de447166a41eb4b08898e2c0f282a5e4b9b33fa1ff636acac7a10585f1nat);
    square(b, 2048, 0x573253de447166a41eb4b08898e2c0f282a5e4b9b33fa1ff636acac7a10585f1nat, 0x77fc8310cf3b5f15d58656e2f436ae76112b99afd9103cfdf4fa89930c759cnat);
    square(b, 4096, 0x77fc8310cf3b5f15d58656e2f436ae76112b99afd9103cfdf4fa89930c759cnat, 0x5eaf7e39121e068365a3610c387819923a48038768eb15978ca8bd72d66fa227nat);
    square(b, 8192, 0x5eaf7e39121e068365a3610c387819923a48038768eb15978ca8bd72d66fa227nat, 0x37dad9b92cdb994ffcb5ae0a4615a8994eaf8d62f3ebeb9c2fecfed35b03e52bnat);
    square(b, 16384, 0x37dad9b92cdb994ffcb5ae0a4615a8994eaf8d62f3ebeb9c2fecfed35b03e52bnat, 0x4b1e594a6a7e58d7d7fd6759493dbfa14270d6a4d1954acab1c8302decdd49bcnat);
    square(b, 32768, 0x4b1e594a6a7e58d7d7fd6759493dbfa14270d6a4d1954acab1c8302decdd49bcnat, 0x3cde4743b795f022838621e1baaa5b3cad93f1351092717a38e1b886d566ff5cnat);
    square(b, 65536, 0x3cde4743b795f022838621e1baaa5b3cad93f1351092717a38e1b886d566ff5cnat, 0x4c7fc9a0ea7e558334a18b51eb956f9f5b89b0f70ab51ce8b6b7d038da2809ebnat);
    square(b, 131072, 0x4c7fc9a0ea7e558334a18b51eb956f9f5b89b0f70ab51ce8b6b7d038da2809ebnat, 0x12e8e75285fda2aa3a128bbb6e8f9419a0cecbd58d40d4ec6499575ac8dcc67bnat);
    square(b, 262144, 0x12e8e75285fda2aa3a128bbb6e8f9419a0cecbd58d40d4ec6499575ac8dcc67bnat, 0x58d6f896982c9bbe6f6993e2a178f46c83a54dfa1bd868b1497db96a0067de14nat);
    square(b, 524288, 0x58d6f896982c9bbe6f6993e2a178f46c83a54dfa1bd868b1497db96a0067de14nat, 0xea537ff0f224716102ce7640c1f80aae6fe7a798158534369d1818e159d2fbbnat);
    square(b, 1048576, 0xea537ff0f224716102ce7640c1f80aae6fe7a798158534369d1818e159d2fbbnat, 0x10bb658c1c0cc82da9aef8dc5b35ff7b10fdbafa0b219bbee9d94d9923108285nat);
    square(b, 2097152, 0x10bb658c1c0cc82da9aef8dc5b35ff7b10fdbafa0b219bbee9d94d9923108285nat, 0x2d51918383f9cdd7ba74e97b36333ee2b66c54e6231889dab6fea7618f9f907enat);
    square(b, 4194304, 0x2d51918383f9cdd7ba74e97b36333ee2b66c54e6231889dab6fea7618f9f907enat, 0x573edf72777409369a0e3aeaea061284b3445e67de874e2fcc0d6477e1cdd2e8nat);
    square(b, 8388608, 0x573edf72777409369a0e3aeaea061284b3445e67de874e2fcc0d6477e1cdd2e8nat, 0x473a71d4933fa315e9730b3153460dc0d43917994123c1f1a08ee5b98753bd9nat);
    square(b, 16777216, 0x473a71d4933fa315e9730b3153460dc0d43917994123c1f1a08ee5b98753bd9nat, 0x2c54694f113f45651eca0ac7597edcd0cb11c0f8016b95d90bb3ee09732b3d78nat);
    square(b, 33554432, 0x2c54694f113f45651eca0ac7597edcd0cb11c0f8016b95d90bb3ee09732b3d78nat, 0x44c4b9850f50e01a4c4d9ccfc3c9b1dcd39380f020dbf2b29dc968777a5cf3fcnat);
    square(b, 67108864, 0x44c4b9850f50e01a4c4d9ccfc3c9b1dcd39380f020dbf2b29dc968777a5cf3fcnat, 0x90dbf673a88617fb23eeec6fc17030854ca53fbea0a18a7dcd7dd16e19b7e0dnat);
    square(b, 134217728, 0x90dbf673a88617fb23eeec6fc17030854ca53fbea0a18a7dcd7dd16e19b7e0dnat, 0x55856555418c93174804b98a1c704b2b4a5ae4f44cb682ecda97f94dc6f2da8dnat);
    square(b, 268435456, 0x55856555418c93174804b98a1c704b2b4a5ae4f44cb682ecda97f94dc6f2da8dnat, 0x11bd51e5e40ba7ec181db1f7a9f9ad5d49f07d1e584a9622c8bd51612a41934dnat);
    square(b, 536870912, 0x11bd51e5e40ba7ec181db1f7a9f9ad5d49f07d1e584a9622c8bd51612a41934dnat, 0x188108f4c17c16786eb58d9ebacd4a571cc43d2c5443e0afe6f59caccb9b2a15nat);
    square(b, 1073741824, 0x188108f4c17c16786eb58d9ebacd4a571cc43d2c5443e0afe6f59caccb9b2a15nat, 0xd75edce4bcd0ca4b2623aa885c8ca0805d5eebaa6b181167df0e01885459b99nat);
    square(b, 2147483648, 0xd75edce4bcd0ca4b2623aa885c8ca0805d5eebaa6b181167df0e01885459b99nat, 0x609dfc52cef06ea1f32988522de990e802cfd18ab8dc733783d34a6cb4cd7559nat);
}

/// The power that lacks one factor of the first prime.
proof fn chain_lacks_first(b: nat)
    requires
        b == 0x609dfc52cef06ea1f32988522de990e802cfd18ab8dc733783d34a6cb4cd7559nat,
    ensures
        power_is(b, 254760293, 0xa59bce66d135443a905cbe27f7ef0033465237fca4ffdb9927f6206dba51b0anat),
{
    start(b);
    square(b, 1, 0x609dfc52cef06ea1f32988522de990e802cfd18ab8dc733783d34a6cb4cd7559nat, 0x1f224c54b8adc23f4bcda3e2044eafb8f5a0260334b37999e2c40dd5ef03dc82nat);
    next(b, 2, 0x1f224c54b8adc23f4bcda3e2044eafb8f5a0260334b37999e2c40dd5ef03dc82nat, 0x609dfc52cef06ea1f32988522de990e802cfd18ab8dc733783d34a6cb4cd7559nat, 0x67d001fe4c4d59adc6cf2deac653fd6a5ec1fe5ec0a667763fcde021c6aeb4fbnat);
    square(b, 3, 0x67d001fe4c4d59adc6cf2deac653fd6a5ec1fe5ec0a667763fcde021c6aeb4fbnat, 0xf245a4a91e572f3ec56c9863f8f6aab466c5a51ffd6747994c2df53a154ce6nat);
    next(b, 6, 0xf245a4a91e572f3ec56c9863f8f6aab466c5a51ffd6747994c2df53a154ce6nat, 0x609dfc52cef06ea1f32988522de990e802cfd18ab8dc733783d34a6cb4cd7559nat, 0x5fedcfda5c34a164c9ec247f43f9caf778b127ed7bab4cbe6f015e900049bf17nat);
    square(b, 7, 0x5fedcfda5c34a164c9ec247f43f9caf778b127ed7bab4cbe6f015e900049bf17nat, 0x6ed2ff446427812ce29f77d8e05475af0f50d59a2643a2d19358f38a473fe6c0nat);
    next(b, 14, 0x6ed2ff446427812ce29f77d8e05475af0f50d59a2643a2d19358f38a473fe6c0nat, 0x609dfc52cef06ea1f32988522de990e802cfd18ab8dc733783d34a6cb4cd7559nat, 0x617ce4d7354ba4c35dbd9c5451c90b87f89b119efbcebe1aca2c5d720d8fde25nat);
    square(b, 15, 0x617ce4d7354ba4c35dbd9c5451c90b87f89b119efbcebe1aca2c5d720d8fde25nat, 0x59e77d609c3f5beae80976feb34d27863fcaa68d3a3020fcc1eed0735d28a9banat);
    square(b, 30, 0x59e77d609c3f5beae80976feb34d27863fcaa68d3a3020fcc1eed0735d28a9banat, 0x4f31f58730b57d81e25f06d0457c261c2c9c4952baba2337e9d15a547169609fnat);
    square(b, 60, 0x4f31f58730b57d81e25f06d0457c261c2c9c4952baba2337e9d15a547169609fnat, 0x39317f3b3051a01c81c0fe86b6dc68f302cb707a4e686fadd15f84f03e4c11dnat);
    next(b, 120, 0x39317f3b3051a01c81c0fe86b6dc68f302cb707a4e686fadd15f84f03e4c11dnat, 0x609dfc52cef06ea1f32988522de990e802cfd18ab8dc733783d34a6cb4cd7559nat, 0xdf40657559ec758d322a107e894c92813f00610e8eadd939b5d950f10f33881nat);
    square(b, 121, 0xdf40657559ec758d322a107e894c92813f00610e8eadd939b5d950f10f33881nat, 0x4ba06c030cb4c9921f9721146abc74a1db062ab6f0938cc310d5a50fedaa6eb9nat);
    square(b, 242, 0x4ba06c030cb4c9921f9721146abc74a1db062ab6f0938cc310d5a50fedaa6eb9nat, 0x7374c5a3c3c4781f9deb2625d0b65609d1ea62d94f0bfabebfb8b87925b8f7eenat);
    next(b, 484, 0x7374c5a3c3c4781f9deb2625d0b65609d1ea62d94f0bfabebfb8b87925b8f7eenat, 0x609dfc52cef06ea1f32988522de990e802cfd18ab8dc733783d34a6cb4cd7559nat, 0x4a89d8294167398954ecd40d947d720809a61bdd9706c291eef3473b6446fc34nat);
    square(b, 485, 0x4a89d8294167398954ecd40d947d720809a61bdd9706c291eef3473b6446fc34nat, 0x4ef260696219730c0e57114b479f7647fe1a6ee8195475fa6a605ab33b975444nat);
    next(b, 970, 0x4ef260696219730c0e57114b479f7647fe1a6ee8195475fa6a605ab33b975444nat, 0x609dfc52cef06ea1f32988522de990e802cfd18ab8dc733783d34a6cb4cd7559nat, 0x3cd1b4fd93154794a9dcecf38963abdcac826d55093ccdfc089d1e2c9d3ce1a6nat);
    square(b, 971, 0x3cd1b4fd93154794a9dcecf38963abdcac826d55093ccdfc089d1e2c9d3ce1a6nat, 0x2e5765d37307b257a263b877eb4b4bcb86e91fa001855db1b5cacd2fde4d7a1enat);
    next(b, 1942, 0x2e5765d37307b257a263b877eb4b4bcb86e91fa001855db1b5cacd2fde4d7a1enat, 0x609dfc52cef06ea1f32988522de990e802cfd18ab8dc733783d34a6cb4cd7559nat, 0x735a6be66b5c92441ce15a915822e55ef87dc2ae7f70d3098b7107e387c7f82cnat);
    square(b, 1943, 0x735a6be66b5c92441ce15a915822e55ef87dc2ae7f70d3098b7107e387c7f82cnat, 0x2a3b7838e12b93b71e4e8bec47d55cbc2c3998a3fbfaf0db523b60188705d7d3nat);
    next(b, 3886, 0x2a3b7838e12b93b71e4e8bec47d55cbc2c3998a3fbfaf0db523b60188705d7d3nat, 0x609dfc52cef06ea1f32988522de990e802cfd18ab8dc733783d34a6cb4cd7559nat, 0x5ef3dfb8f8d4079901edb9c0fd71fa1421066123c57d7b8e5b1410888778cc4dnat);
    square(b, 3887, 0x5ef3dfb8f8d4079901edb9c0fd71fa1421066123c57d7b8e5b1410888778cc4dnat, 0x12e2ed2d0b08afa97a76f2d437b8b450e9836c681afb75e6ccafbe89d4dd4b22nat);
    square(b, 7774, 0x12e2ed2d0b08afa97a76f2d437b8b450e9836c681afb75e6ccafbe89d4dd4b22nat, 0x5a0c2c518915ac36682af2d42cebcd53d726c6d5dc38d9a9cd6758a681b18bd3nat);
    next(b, 15548, 0x5a0c2c518915ac36682af2d42cebcd53d726c6d5dc38d9a9cd6758a681b18bd3nat, 0x609dfc52cef06ea1f32988522de990e802cfd18ab8dc733783d34a6cb4cd7559nat, 0x421af91cf6b15a60e2e720e50f0639ffc1c436a422239bec48d526a8bc4c0045nat);
    square(b, 15549, 0x421af91cf6b15a60e2e720e50f0639ffc1c436a422239bec48d526a8bc4c0045nat, 0x5f9d795513ccc5f59c154860e2ac0ebda5d4a9f337895e02c8320eddf1b518c0nat);
    square(b, 31098, 0x5f9d795513ccc5f59c154860e2ac0ebda5d4a9f337895e02c8320eddf1b518c0nat, 0x2b0d7802d1ff4972e08630635ea5edafe7312af6a1840b1f9a9a966adb2fe238nat);
    next(b, 62196, 0x2b0d7802d1ff4972e08630635ea5edafe7312af6a1840b1f9a9a966adb2fe238nat, 0x609dfc52cef06ea1f32988522de990e802cfd18ab8dc733783d34a6cb4cd7559nat, 0x677eb1560cb7a4c2a38663c11a50a3bf8c0c8940da3466f8eb45269e6d25e83nat);
    square(b, 62197, 0x677eb1560cb7a4c2a38663c11a50a3bf8c0c8940da3466f8eb45269e6d25e83nat, 0x56568894b7cf5d74866c72a10e40db8aebc1061957e9bee46f487daf73669143nat);
    square(b, 124394, 0x56568894b7cf5d74866c72a10e40db8aebc1061957e9bee46f487daf73669143nat, 0xcdfd8322231b51d98ab434607f69bb138a526590d905b9dcf3681a0b7cb92f8nat);
    next(b, 248788, 0xcdfd8322231b51d98ab434607f69bb138a526590d905b9dcf3681a0b7cb92f8nat, 0x609dfc52cef06ea1f32988522de990e802cfd18ab8dc733783d34a6cb4cd7559nat, 0x25ba95601d738318cb0765c137cfe3d49d04ce345d560b9c2e0f5d57db28382dnat);
    square(b, 248789, 0x25ba95601d738318cb0765c137cfe3d49d04ce345d560b9c2e0f5d57db28382dnat, 0x2f371c61f6c7728cb97a7aafc917a8c75b76491dd847e8061c4e895fb0825013nat);
    square(b, 497578, 0x2f371c61f6c7728cb97a7aafc917a8c75b76491dd847e8061c4e895fb0825013nat, 0x735dd52b0fd5ce10ee03b1b0893fefa46ce4d39c34b8117c23978b8ace1b92canat);
    next(b, 995156, 0x735dd52b0fd5ce10ee03b1b0893fefa46ce4d39c34b8117c23978b8ace1b92canat, 0x609dfc52cef06ea1f32988522de990e802cfd18ab8dc733783d34a6cb4cd7559nat, 0x62c54078808ee0c37bfbfc6f5b700db39e481555681834a3213cf7828307d20bnat);
    square(b, 995157, 0x62c54078808ee0c37bfbfc6f5b700db39e481555681834a3213cf7828307d20bnat, 0x63c3b415d73ce4c7a233e1b68f7bcbe8bc9437dc46a0371d7d4e6033f7b2ed72nat);
    square(b, 1990314, 0x63c3b415d73ce4c7a233e1b68f7bcbe8bc9437dc46a0371d7d4e6033f7b2ed72nat, 0x3ac2fe40903134bc3797180f64f7f346b1f576701829d934b2ed5f373faca594nat);
    next(b, 3980628, 0x3ac2fe40903134bc3797180f64f7f346b1f576701829d934b2ed5f373faca594nat, 0x609dfc52cef06ea1f32988522de990e802cfd18ab8dc733783d34a6cb4cd7559nat, 0x584fa65324135c8de6ca9dbf17a4b3d63c58c65a3671e5d597bfe40088e686e5nat);
    square(b, 3980629, 0x584fa65324135c8de6ca9dbf17a4b3d63c58c65a3671e5d597bfe40088e686e5nat, 0x5512d47a33bd2ebff2cafcd141e167ebbabaaa032a7c87f41300cd8547dcdc99nat);
    next(b, 7961258, 0x5512d47a33bd2ebff2cafcd141e167ebbabaaa032a7c87f41300cd8547dcdc99nat, 0x609dfc52cef06ea1f32988522de990e802cfd18ab8dc733783d34a6cb4cd7559nat, 0xd4f198d69085dbac6905653a60f71480ed32c60ebc50f3f1258c5ab89859d1dnat);
    square(b, 7961259, 0xd4f198d69085dbac6905653a60f71480ed32c60ebc50f3f1258c5ab89859d1dnat, 0x34cbdcebf40a08d1c03fa7f667c95c76f1378fe3969c5b5db649e616149fc140nat);
    square(b, 15922518, 0x34cbdcebf40a08d1c03fa7f667c95c76f1378fe3969c5b5db649e616149fc140nat, 0x3d485179f2c4a0daef66c5071e75e567f006186db34960e8b1ec7a44dc43742fnat);
    square(b, 31845036, 0x3d485179f2c4a0daef66c5071e75e567f006186db34960e8b1ec7a44dc43742fnat, 0x4ae0a753b59facb7d777b2e007bc41e81f1d7828b27c427a46c54d8aafd68a88nat);
    next(b, 63690072, 0x4ae0a753b59facb7d777b2e007bc41e81f1d7828b27c427a46c54d8aafd68a88nat, 0x609dfc52cef06ea1f32988522de990e802cfd18ab8dc733783d34a6cb4cd7559nat, 0x46debc1a57fa3c2aba35308dc7c229007f5542b234187ced7577f6f5cbb43f59nat);
    square(b, 63690073, 0x46debc1a57fa3c2aba35308dc7c229007f5542b234187ced7577f6f5cbb43f59nat, 0x38411f3428b4e34e5333fa2e8cc48a6a30a398df9cf2ddcd6ff398a40b33aad4nat);
    square(b, 127380146, 0x38411f3428b4e34e5333fa2e8cc48a6a30a398df9cf2ddcd6ff398a40b33aad4nat, 0x68f592e7bcfa3eff59f148179faa0807e2c71e5c88077b6b960e849701ce76c8nat);
    next(b, 254760292, 0x68f592e7bcfa3eff59f148179faa0807e2c71e5c88077b6b960e849701ce76c8nat, 0x609dfc52cef06ea1f32988522de990e802cfd18ab8dc733783d34a6cb4cd7559nat, 0xa59bce66d135443a905cbe27f7ef0033465237fca4ffdb9927f6206dba51b0anat);
}

/// The power that lacks one factor of the second prime.
proof fn chain_lacks_second(b: nat)
    requires
        b == 0x609dfc52cef06ea1f32988522de990e802cfd18ab8dc733783d34a6cb4cd7559nat,
    ensures
        power_is(b, 906349, 0x6066d68091422459ea719b5c257f54a3a5509ba90dd017135d4facfcccdf73d6nat),
{
    start(b);
    square(b, 1, 0x609dfc52cef06ea1f32988522de990e802cfd18ab8dc733783d34a6cb4cd7559nat, 0x1f224c54b8adc23f4bcda3e2044eafb8f5a0260334b37999e2c40dd5ef03dc82nat);
    next(b, 2, 0x1f224c54b8adc23f4bcda3e2044eafb8f5a0260334b37999e2c40dd5ef03dc82nat, 0x609dfc52cef06ea1f32988522de990e802cfd18ab8dc733783d34a6cb4cd7559nat, 0x67d001fe4c4d59adc6cf2deac653fd6a5ec1fe5ec0a667763fcde021c6aeb4fbnat);
    square(b, 3, 0x67d001fe4c4d59adc6cf2deac653fd6a5ec1fe5ec0a667763fcde021c6aeb4fbnat, 0xf245a4a91e572f3ec56c9863f8f6aab466c5a51ffd6747994c2df53a154ce6nat);
    square(b, 6, 0xf245a4a91e572f3ec56c9863f8f6aab466c5a51ffd6747994c2df53a154ce6nat, 0x31796d09a2d154e78d14176bf0e94f49ff100bf9f1a1d9dcec34d11ab89e9965nat);
    next(b, 12, 0x31796d09a2d154e78d14176bf0e94f49ff100bf9f1a1d9dcec34d11ab89e9965nat, 0x609dfc52cef06ea1f32988522de990e802cfd18ab8dc733783d34a6cb4cd7559nat, 0x4a0f96848dc32159a8f5f027abbb3169e88b2ad4c6aa5d3ceaf0b71b3dcd94c5nat);
    square(b, 13, 0x4a0f96848dc32159a8f5f027abbb3169e88b2ad4c6aa5d3ceaf0b71b3dcd94c5nat, 0x1e4bf271c69a7afd8d44d4c931bfa0ab9eed6149ef00cb2687b69b9c02f831e4nat);
    next(b, 26, 0x1e4bf271c69a7afd8d44d4c931bfa0ab9eed6149ef00cb2687b69b9c02f831e4nat, 0x609dfc52cef06ea1f32988522de990e802cfd18ab8dc733783d34a6cb4cd7559nat, 0x6935e9310db20ec59223eb6dfc4e26f6efdfb9f553d43526162b1faf926c5cd3nat);
    square(b, 27, 0x6935e9310db20ec59223eb6dfc4e26f6efdfb9f553d43526162b1faf926c5cd3nat, 0x64c664b7b4672167ed0e12640ead246cc55cd7681e7cac9a380f6f9d0b531881nat);
    next(b, 54, 0x64c664b7b4672167ed0e12640ead246cc55cd7681e7cac9a380f6f9d0b531881nat, 0x609dfc52cef06ea1f32988522de990e802cfd18ab8dc733783d34a6cb4cd7559nat, 0x739503214be982725595d67d050836badbc34ce042fb1249ad3f18fd5ad6cf4nat);
    square(b, 55, 0x739503214be982725595d67d050836badbc34ce042fb1249ad3f18fd5ad6cf4nat, 0x1d49f0753750af08036f8a4a7be586d26437bc524334ee773cf90c8061eab2c6nat);
    square(b, 110, 0x1d49f0753750af08036f8a4a7be586d26437bc524334ee773cf90c8061eab2c6nat, 0x632ac745110bb9c61ba82a08c1ebbbea4d7b0e985f65cec12b348aedf1747be4nat);
    next(b, 220, 0x632ac745110bb9c61ba82a08c1ebbbea4d7b0e985f65cec12b348aedf1747be4nat, 0x609dfc52cef06ea1f32988522de990e802cfd18ab8dc733783d34a6cb4cd7559nat, 0x1d9b268e1bf502d3e9af7012fc6318826084c0855896861d0c6a761a44d19edfnat);
    square(b, 221, 0x1d9b268e1bf502d3e9af7012fc6318826084c0855896861d0c6a761a44d19edfnat, 0x46cbf639318286dee52bd12601b5c247a18f1775c07b1c9af96e39308d8dd775nat);
    square(b, 442, 0x46cbf639318286dee52bd12601b5c247a18f1775c07b1c9af96e39308d8dd775nat, 0x644f13b6d2922aef14e26de1219ab1fe96da2407a0cd72427b6e9faf379e7e8dnat);
    next(b, 884, 0x644f13b6d2922aef14e26de1219ab1fe96da2407a0cd72427b6e9faf379e7e8dnat, 0x609dfc52cef06ea1f32988522de990e802cfd18ab8dc733783d34a6cb4cd7559nat, 0x311bcd2c11a69b799315a05ba128a7105e306a0d513a4c8711d346dd251d091nat);
    square(b, 885, 0x311bcd2c11a69b799315a05ba128a7105e306a0d513a4c8711d346dd251d091nat, 0xf10053f94fb7170fe5fadc9609d97f166a35e0b2331db7965326641709a64c6nat);
    square(b, 1770, 0xf10053f94fb7170fe5fadc9609d97f166a35e0b2331db7965326641709a64c6nat, 0x11d673cf6f66583cfedaddf9bbda0c0dc3cc7bc7954cad1dd574fdd736114a2nat);
    square(b, 3540, 0x11d673cf6f66583cfedaddf9bbda0c0dc3cc7bc7954cad1dd574fdd736114a2nat, 0x602dcff25e01f32c5805abc2afecbc85254e6c58d01f1133e65c5b8e8f4d5f88nat);
    square(b, 7080, 0x602dcff25e01f32c5805abc2afecbc85254e6c58d01f1133e65c5b8e8f4d5f88nat, 0x2535a70293c3751c4db302f548dc7120da2b7e80d961b49223729eebc71903d3nat);
    next(b, 14160, 0x2535a70293c3751c4db302f548dc7120da2b7e80d961b49223729eebc71903d3nat, 0x609dfc52cef06ea1f32988522de990e802cfd18ab8dc733783d34a6cb4cd7559nat, 0x2d40e81a0bd753515fe7b2e00b6d7fdb6d48639821702efd7378fd2c979a14c1nat);
    square(b, 14161, 0x2d40e81a0bd753515fe7b2e00b6d7fdb6d48639821702efd7378fd2c979a14c1nat, 0x4760602986b3aa47663d972fd4252312470103ccffb0dd1e94a2036e01c06880nat);
    next(b, 28322, 0x4760602986b3aa47663d972fd4252312470103ccffb0dd1e94a2036e01c06880nat, 0x609dfc52cef06ea1f32988522de990e802cfd18ab8dc733783d34a6cb4cd7559nat, 0x2fdcaea462f1fef9d5ede4f4ac648dbcd3f97c7e754a016066772feda3775af5nat);
    square(b, 28323, 0x2fdcaea462f1fef9d5ede4f4ac648dbcd3f97c7e754a016066772feda3775af5nat, 0x718d2bb9b53c9256b24cc7fc2496f4ba10246bfbdb8b448652f504301d73db58nat);
    square(b, 56646, 0x718d2bb9b53c9256b24cc7fc2496f4ba10246bfbdb8b448652f504301d73db58nat, 0x666ebd9b9c3cc59f2dd34fa3f21e20929770cda9a90de7eb6938f47851b6838cnat);
    next(b, 113292, 0x666ebd9b9c3cc59f2dd34fa3f21e20929770cda9a90de7eb6938f47851b6838cnat, 0x609dfc52cef06ea1f32988522de990e802cfd18ab8dc733783d34a6cb4cd7559nat, 0x688f0709a33ce0dba7be6368b2f1ce560d46c992ca47d911d9115800200f289bnat);
    square(b, 113293, 0x688f0709a33ce0dba7be6368b2f1ce560d46c992ca47d911d9115800200f289bnat, 0x4b004c20c588f38d799d86341233651c87caad36940ab21aea99795061199677nat);
    next(b, 226586, 0x4b004c20c588f38d799d86341233651c87caad36940ab21aea99795061199677nat, 0x609dfc52cef06ea1f32988522de990e802cfd18ab8dc733783d34a6cb4cd7559nat, 0x629b633e928f5519bc23ad75e31aa6e5df64480ca01a8453b861b443233c3bccnat);
    square(b, 226587, 0x629b633e928f5519bc23ad75e31aa6e5df64480ca01a8453b861b443233c3bccnat, 0x2b925997f00bedc6f4e8da0a8ede31750d79b5033e60a7e61a4240f8a54b010enat);
    square(b, 453174, 0x2b925997f00bedc6f4e8da0a8ede31750d79b5033e60a7e61a4240f8a54b010enat, 0x41e180b2108472a1d8cb1348da52c465c1803b22c77d6cc5978980a05b9048a9nat);
    next(b, 906348, 0x41e180b2108472a1d8cb1348da52c465c1803b22c77d6cc5978980a05b9048a9nat, 0x609dfc52cef06ea1f32988522de990e802cfd18ab8dc733783d34a6cb4cd7559nat, 0x6066d68091422459ea719b5c257f54a3a5509ba90dd017135d4facfcccdf73d6nat);
}

/// The element to the power of both primes, to the power of the first prime.
proof fn chain_square_first(b: nat)
    requires
        b == 0x5e575e86bb7d0957508921973a746f87450c89be548484703ddb05b9e6363e75nat,
    ensures
        power_is(b, 906349, 0xb7ed5b8e6b82ec4ba3c5a6eb57a54c2658522e2be704689778e2a00c6b8c78nat),
{
    start(b);
    square(b, 1, 0x5e575e86bb7d0957508921973a746f87450c89be548484703ddb05b9e6363e75nat, 0x15385f9d829aa3d4aaa86e1e3e4b16be69f483cf767d0f38e32ac5651168141cnat);
    next(b, 2, 0x15385f9d829aa3d4aaa86e1e3e4b16be69f483cf767d0f38e32ac5651168141cnat, 0x5e575e86bb7d0957508921973a746f87450c89be548484703ddb05b9e6363e75nat, 0x4a6df2f931552368b35c55cc5d3e380d22a21745d893f851c54a29d8996086ebnat);
    square(b, 3, 0x4a6df2f931552368b35c55cc5d3e380d22a21745d893f851c54a29d8996086ebnat, 0x36190ff8477b96b344d06d1cbb50128217b43ab8742f04c944a2338c3cb06ac0nat);
    square(b, 6, 0x36190ff8477b96b344d06d1cbb50128217b43ab8742f04c944a2338c3cb06ac0nat, 0x5272101d98551925a0a08bb4d6416a2c9fa496ab07a0a47ac48534d698a8e23enat);
    next(b, 12, 0x5272101d98551925a0a08bb4d6416a2c9fa496ab07a0a47ac48534d698a8e23enat, 0x5e575e86bb7d0957508921973a746f87450c89be548484703ddb05b9e6363e75nat, 0x4845469098b69d307815d5182f8c9681d7011ae22374f1fd80944ea82c1d2770nat);
    square(b, 13, 0x4845469098b69d307815d5182f8c9681d7011ae22374f1fd80944ea82c1d2770nat, 0x6f933139e98f5dc5e6bd46a40aa9e9eaf85336e62ce503032a82855daee4f857nat);
    next(b, 26, 0x6f933139e98f5dc5e6bd46a40aa9e9eaf85336e62ce503032a82855daee4f857nat, 0x5e575e86bb7d0957508921973a746f87450c89be548484703ddb05b9e6363e75nat, 0x35f204803419ea01c192fd26cbb5d03838803be3693b20b512b31cb857c2bdffnat);
    square(b, 27, 0x35f204803419ea01c192fd26cbb5d03838803be3693b20b512b31cb857c2bdffnat, 0x616f75a6f5a33bf36939d11fe21928c87742c9520d5912dbdac23b47ac3d028anat);
    next(b, 54, 0x616f75a6f5a33bf36939d11fe21928c87742c9520d5912dbdac23b47ac3d028anat, 0x5e575e86bb7d0957508921973a746f87450c89be548484703ddb05b9e6363e75nat, 0x1dd87a25e991db3dcd529a8b6ac44aaae40a9d74cfe06d694448b32ac5663398nat);
    square(b, 55, 0x1dd87a25e991db3dcd529a8b6ac44aaae40a9d74cfe06d694448b32ac5663398nat, 0x1d1a0b0d8ce67e64c41f9aabb4f6d38ddc8e9cd620c3eb85a2b34edf1cfac196nat);
    square(b, 110, 0x1d1a0b0d8ce67e64c41f9aabb4f6d38ddc8e9cd620c3eb85a2b34edf1cfac196nat, 0x39bd5e2db7b755a1b1253776d60e38cf491c6cfb75a4c469f20c34d5159d896nat);
    next(b, 220, 0x39bd5e2db7b755a1b1253776d60e38cf491c6cfb75a4c469f20c34d5159d896nat, 0x5e575e86bb7d0957508921973a746f87450c89be548484703ddb05b9e6363e75nat, 0x20154458704ef89135c44c85823aeba434468c242f9910cc21818b608710e6fenat);
    square(b, 221, 0x20154458704ef89135c44c85823aeba434468c242f9910cc21818b608710e6fenat, 0x1a8f2c28464e2570de69fef9419ed3f824b6a957ced97a150f14a6c294afd3d8nat);
    square(b, 442, 0x1a8f2c28464e2570de69fef9419ed3f824b6a957ced97a150f14a6c294afd3d8nat, 0x1b71a43e811f1fa9eafb7bd503d063c4f8783a1e98d45100b78ec16e30183fanat);
    next(b, 884, 0x1b71a43e811f1fa9eafb7bd503d063c4f8783a1e98d45100b78ec16e30183fanat, 0x5e575e86bb7d0957508921973a746f87450c89be548484703ddb05b9e6363e75nat, 0x49e99455d5f1406bb9833694623b4f441e84c420eb3deaeee092b0e5a1743206nat);
    square(b, 885, 0x49e99455d5f1406bb9833694623b4f441e84c420eb3deaeee092b0e5a1743206nat, 0x54255b7db43f39666bda5f693aafedc2db19670ae69dfb373666da0b119c9a7enat);
    square(b, 1770, 0x54255b7db43f39666bda5f693aafedc2db19670ae69dfb373666da0b119c9a7enat, 0x5dd20a40d6bc70535ffc5361041e44cf3ae84c8aa8bcb505d39617d80f6362bbnat);
    square(b, 3540, 0x5dd20a40d6bc70535ffc5361041e44cf3ae84c8aa8bcb505d39617d80f6362bbnat, 0x349b02fa0df491efd34fabbe79318b26e13bc1a98dfd1fd86ad2969fa4a4c6ccnat);
    square(b, 7080, 0x349b02fa0df491efd34fabbe79318b26e13bc1a98dfd1fd86ad2969fa4a4c6ccnat, 0x3fbcf414c8005a5704c61908ed13406adf36c5b1ddc40f829a13f85ece3f3431nat);
    next(b, 14160, 0x3fbcf414c8005a5704c61908ed13406adf36c5b1ddc40f829a13f85ece3f3431nat, 0x5e575e86bb7d0957508921973a746f87450c89be548484703ddb05b9e6363e75nat, 0x5af0a5edd4e596bed800ed20fcbc1433397e9876c7227ca9b7713dd80b81d732nat);
    square(b, 14161, 0x5af0a5edd4e596bed800ed20fcbc1433397e9876c7227ca9b7713dd80b81d732nat, 0x1aba260bdb59e28b465fe258a10adf63ded6b37ffe998d0a85e5d9834264e6denat);
    next(b, 28322, 0x1aba260bdb59e28b465fe258a10adf63ded6b37ffe998d0a85e5d9834264e6denat, 0x5e575e86bb7d0957508921973a746f87450c89be548484703ddb05b9e6363e75nat, 0x10d74ddf7e9becc5de55eb8225f1cb070c2136b0e04f6eed71fdbf2f08509df7nat);
    square(b, 28323, 0x10d74ddf7e9becc5de55eb8225f1cb070c2136b0e04f6eed71fdbf2f08509df7nat, 0x423481d32789c3a3dbf7f4d1cb6724301fa98c4550013f7b1f228f981b225bffnat);
    square(b, 56646, 0x423481d32789c3a3dbf7f4d1cb6724301fa98c4550013f7b1f228f981b225bffnat, 0x575b4e1a536832dc7f4b46c0f1a23acae7817eafd19892bbf81c1dfbcb0976d9nat);
    next(b, 113292, 0x575b4e1a536832dc7f4b46c0f1a23acae7817eafd19892bbf81c1dfbcb0976d9nat, 0x5e575e86bb7d0957508921973a746f87450c89be548484703ddb05b9e6363e75nat, 0x5dfd12f6f713ea47434652b5fe24aa574e407b5c99a8c8c550a2a2921e11baeenat);
    square(b, 113293, 0x5dfd12f6f713ea47434652b5fe24aa574e407b5c99a8c8c550a2a2921e11baeenat, 0x9e07e47c18f226362e53a6a0e0e80aba7be1a58370ba59d6ff1c094dbdda92fnat);
    next(b, 226586, 0x9e07e47c18f226362e53a6a0e0e80aba7be1a58370ba59d6ff1c094dbdda92fnat, 0x5e575e86bb7d0957508921973a746f87450c89be548484703ddb05b9e6363e75nat, 0x3dfe381310517bdc3ce0fdbc69fec3aa4d6c919ab92965e3415026658d6bf5ecnat);
    square(b, 226587, 0x3dfe381310517bdc3ce0fdbc69fec3aa4d6c919ab92965e3415026658d6bf5ecnat, 0x2a19ea21cc2a4e289c86cdbea5163585c52f2197325ea049df198ac44a18437fnat);
    square(b, 453174, 0x2a19ea21cc2a4e289c86cdbea5163585c52f2197325ea049df198ac44a18437fnat, 0x69e7383e96170eb0bd854c4298b40c003fdd81ea59e5f8c79a1cac60fdf4e865nat);
    next(b, 906348, 0x69e7383e96170eb0bd854c4298b40c003fdd81ea59e5f8c79a1cac60fdf4e865nat, 0x5e575e86bb7d0957508921973a746f87450c89be548484703ddb05b9e6363e75nat, 0xb7ed5b8e6b82ec4ba3c5a6eb57a54c2658522e2be704689778e2a00c6b8c78nat);
}

/// The result to the power of the second prime.
proof fn chain_square_both(b: nat)
    requires
        b == 0xb7ed5b8e6b82ec4ba3c5a6eb57a54c2658522e2be704689778e2a00c6b8c78nat,
    ensures
        power_is(b, 254760293, 0x212d79e5b416b6f0fd56dc8d168d6c0c4024ff270b3e0941b788f500b912f1fnat),
{
    start(b);
    square(b, 1, 0xb7ed5b8e6b82ec4ba3c5a6eb57a54c2658522e2be704689778e2a00c6b8c78nat, 0x50317e0d5bda975e082bd7b5a0b05bb8b7960c846e4485e355cee3344062564cnat);
    next(b, 2, 0x50317e0d5bda975e082bd7b5a0b05bb8b7960c846e4485e355cee3344062564cnat, 0xb7ed5b8e6b82ec4ba3c5a6eb57a54c2658522e2be704689778e2a00c6b8c78nat, 0x4049200037e5bdd3f12e10c6fc3fdd35cae1f946fb61e9f9dba368eeff881468nat);
    square(b, 3, 0x4049200037e5bdd3f12e10c6fc3fdd35cae1f946fb61e9f9dba368eeff881468nat, 0x6472486715df05e34a7ba357d0fe07542d944dde3c11ada458cf29336aafa035nat);
    next(b, 6, 0x6472486715df05e34a7ba357d0fe07542d944dde3c11ada458cf29336aafa035nat, 0xb7ed5b8e6b82ec4ba3c5a6eb57a54c2658522e2be704689778e2a00c6b8c78nat, 0x4226b277f15582898ff5679d13ee09e6ca0a8ec78af82f2dec5c91f822471abcnat);
    square(b, 7, 0x4226b277f15582898ff5679d13ee09e6ca0a8ec78af82f2dec5c91f822471abcnat, 0x16047d292e60af5684b451433e7ebcdeda10dba06c3f3a399594fe498b0ae8e3nat);
    next(b, 14, 0x16047d292e60af5684b451433e7ebcdeda10dba06c3f3a399594fe498b0ae8e3nat, 0xb7ed5b8e6b82ec4ba3c5a6eb57a54c2658522e2be704689778e2a00c6b8c78nat, 0x4625d566c6e0ef49c9b80be5edf7aa59d1d4da6fe5d9a4cbd9b1dd7f6ae57264nat);
    square(b, 15, 0x4625d566c6e0ef49c9b80be5edf7aa59d1d4da6fe5d9a4cbd9b1dd7f6ae57264nat, 0x413c9adfc9e42298e58c80bc7032505b6f7dd1ad5f173ddd70071bf3eb69541enat);
    square(b, 30, 0x413c9adfc9e42298e58c80bc7032505b6f7dd1ad5f173ddd70071bf3eb69541enat, 0x31678d321d7aee7d5c777196da321926fd0a24d60465d749d497fc3affd40903nat);
    square(b, 60, 0x31678d321d7aee7d5c777196da321926fd0a24d60465d749d497fc3affd40903nat, 0x43daf33efa7d71655c9ab3b4bb6ebdd31b3a0e751ed9b675067434247c719a99nat);
    next(b, 120, 0x43daf33efa7d71655c9ab3b4bb6ebdd31b3a0e751ed9b675067434247c719a99nat, 0xb7ed5b8e6b82ec4ba3c5a6eb57a54c2658522e2be704689778e2a00c6b8c78nat, 0x186e87a48f19ee3ce6af0eb723ec3c863bb76b077b64717cb927419420ff443enat);
    square(b, 121, 0x186e87a48f19ee3ce6af0eb723ec3c863bb76b077b64717cb927419420ff443enat, 0x6433cfa86265ac52bdc053e109a659b25dc8dc08bb75bdedd16820ac68ab0980nat);
    square(b, 242, 0x6433cfa86265ac52bdc053e109a659b25dc8dc08bb75bdedd16820ac68ab0980nat, 0x1904af3e37106c7392216d9a023b518bdb4ffc1f32878cc5a94c03e64147ecccnat);
    next(b, 484, 0x1904af3e37106c7392216d9a023b518bdb4ffc1f32878cc5a94c03e64147ecccnat, 0xb7ed5b8e6b82ec4ba3c5a6eb57a54c2658522e2be704689778e2a00c6b8c78nat, 0x47175546165bac89583a32c2ee3a23848e8ca6e65e78aa5748762c05df35866nat);
    square(b, 485, 0x47175546165bac89583a32c2ee3a23848e8ca6e65e78aa5748762c05df35866nat, 0x4943e872176467a379987daafe4121148cb8764e362d5e95c23dcbb7e73124fcnat);
    next(b, 970, 0x4943e872176467a379987daafe4121148cb8764e362d5e95c23dcbb7e73124fcnat, 0xb7ed5b8e6b82ec4ba3c5a6eb57a54c2658522e2be704689778e2a00c6b8c78nat, 0x29d991c4d525243a7e06b93b467927bcac57b0369c770ef54e255f5d48c341nat);
    square(b, 971, 0x29d991c4d525243a7e06b93b467927bcac57b0369c770ef54e255f5d48c341nat, 0x3655a53828efa2c36bd5df156d0d391837a886fce1825b9ba0fd71c8472e0248nat);
    next(b, 1942, 0x3655a53828efa2c36bd5df156d0d391837a886fce1825b9ba0fd71c8472e0248nat, 0xb7ed5b8e6b82ec4ba3c5a6eb57a54c2658522e2be704689778e2a00c6b8c78nat, 0x48b47022e1967e5336dd2bee02cd96303bcdcca13626cad48cfe3fb82206d097nat);
    square(b, 1943, 0x48b47022e1967e5336dd2bee02cd96303bcdcca13626cad48cfe3fb82206d097nat, 0x1c1b6f6824ae9c0c042ba2df7b68bb6d69bd9b23db23ac4fb941f52479a3d8c6nat);
    next(b, 3886, 0x1c1b6f6824ae9c0c042ba2df7b68bb6d69bd9b23db23ac4fb941f52479a3d8c6nat, 0xb7ed5b8e6b82ec4ba3c5a6eb57a54c2658522e2be704689778e2a00c6b8c78nat, 0x500e907ff7edd2225327c634f88a58a8e8f19d430b7ea33face76679a9ca94denat);
    square(b, 3887, 0x500e907ff7edd2225327c634f88a58a8e8f19d430b7ea33face76679a9ca94denat, 0x2d19b7735403e346cc5967f729c79f3457d494ece477841124cf39032298cab8nat);
    square(b, 7774, 0x2d19b7735403e346cc5967f729c79f3457d494ece477841124cf39032298cab8nat, 0x2a5a8cb50a8c41a769b4ff473516166f753df36cda73fb7eeedce870c7ffc7fnat);
    next(b, 15548, 0x2a5a8cb50a8c41a769b4ff473516166f753df36cda73fb7eeedce870c7ffc7fnat, 0xb7ed5b8e6b82ec4ba3c5a6eb57a54c2658522e2be704689778e2a00c6b8c78nat, 0x14aae67e424473520bc22bbaca6649e5db9e0c2544c809712a975ded5cb86073nat);
    square(b, 15549, 0x14aae67e424473520bc22bbaca6649e5db9e0c2544c809712a975ded5cb86073nat, 0x51334e8f4d0c7cbe07dad77e87e750093a5cbe2313ed1328c7af8f044749b387nat);
    square(b, 31098, 0x51334e8f4d0c7cbe07dad77e87e750093a5cbe2313ed1328c7af8f044749b387nat, 0x17494f69e6fe018b7a3c68e983c1d6087314029787fd296ec73a22cd132e8158nat);
    next(b, 62196, 0x17494f69e6fe018b7a3c68e983c1d6087314029787fd296ec73a22cd132e8158nat, 0xb7ed5b8e6b82ec4ba3c5a6eb57a54c2658522e2be704689778e2a00c6b8c78nat, 0x29b9dee84f5ab9fcc269fa0c9fca71cab178485673cf3b075b6639e210bd1414nat);
    square(b, 62197, 0x29b9dee84f5ab9fcc269fa0c9fca71cab178485673cf3b075b6639e210bd1414nat, 0x3ae26996b1368fb47779e9dae11d09236e9993e3913fbfa450fe961796ff9d33nat);
    square(b, 124394, 0x3ae26996b1368fb47779e9dae11d09236e9993e3913fbfa450fe961796ff9d33nat, 0x17371e76258a8c8b7dc6c5814b3ea4d7a879d4784492a31af0d2f43cdab22331nat);
    next(b, 248788, 0x17371e76258a8c8b7dc6c5814b3ea4d7a879d4784492a31af0d2f43cdab22331nat, 0xb7ed5b8e6b82ec4ba3c5a6eb57a54c2658522e2be704689778e2a00c6b8c78nat, 0x6babd31004e3baab763d6794d609f521ac87e468ee8d4bbaeee246d873316ccfnat);
    square(b, 248789, 0x6babd31004e3baab763d6794d609f521ac87e468ee8d4bbaeee246d873316ccfnat, 0x4551805deb58225a21d4f94b2390118b3ee31ab289ae67aaf3dfb75fc3023669nat);
    square(b, 497578, 0x4551805deb58225a21d4f94b2390118b3ee31ab289ae67aaf3dfb75fc3023669nat, 0x3305b167fc7bc62e0db99d4987688079bf473a9c7a43448f1b39e7cf6574bc15nat);
    next(b, 995156, 0x3305b167fc7bc62e0db99d4987688079bf473a9c7a43448f1b39e7cf6574bc15nat, 0xb7ed5b8e6b82ec4ba3c5a6eb57a54c2658522e2be704689778e2a00c6b8c78nat, 0x205db6743bbc261a588fb53b00cd2e30a586aca0010e6cfc7f7a02661072b626nat);
    square(b, 995157, 0x205db6743bbc261a588fb53b00cd2e30a586aca0010e6cfc7f7a02661072b626nat, 0x55e92c96cb4d40fafa44b3813d75fcd0bb369c4692d8c5955ffa445386fee790nat);
    square(b, 1990314, 0x55e92c96cb4d40fafa44b3813d75fcd0bb369c4692d8c5955ffa445386fee790nat, 0x4b8a9edb289fd7a2009cd706c0df4deca858e19f97256045d7a61081a8773c2enat);
    next(b, 3980628, 0x4b8a9edb289fd7a2009cd706c0df4deca858e19f97256045d7a61081a8773c2enat, 0xb7ed5b8e6b82ec4ba3c5a6eb57a54c2658522e2be704689778e2a00c6b8c78nat, 0x6b279c6eca2ede4f7bfba8c0f9d7bab0a7b3dbe4c9f6107e190b714cc1a760cdnat);
    square(b, 3980629, 0x6b279c6eca2ede4f7bfba8c0f9d7bab0a7b3dbe4c9f6107e190b714cc1a760cdnat, 0x3b1948a19fd52fabd1d022a32ac7d7caab57aa109b2028ba2fc8c7814a8ad322nat);
    next(b, 7961258, 0x3b1948a19fd52fabd1d022a32ac7d7caab57aa109b2028ba2fc8c7814a8ad322nat, 0xb7ed5b8e6b82ec4ba3c5a6eb57a54c2658522e2be704689778e2a00c6b8c78nat, 0x3c18543c06f9846e6d6358212393c098cdf2cdcefbed5c348853f97042d5b7f3nat);
    square(b, 7961259, 0x3c18543c06f9846e6d6358212393c098cdf2cdcefbed5c348853f97042d5b7f3nat, 0x1f8c88225b9f98cd3bc8333c49f6a975632efdb433870980c29ffa6e905dd5acnat);
    square(b, 15922518, 0x1f8c88225b9f98cd3bc8333c49f6a975632efdb433870980c29ffa6e905dd5acnat, 0x1915a42b2ed84891c284e29835ef7d04ea3f37d80bacd5cf12a07baa702d218dnat);
    square(b, 31845036, 0x1915a42b2ed84891c284e29835ef7d04ea3f37d80bacd5cf12a07baa702d218dnat, 0x4590d57e4f0cc89c2398b569b9a2439304a3bbd563eae4ad4d4976f8a20daa56nat);
    next(b, 63690072, 0x4590d57e4f0cc89c2398b569b9a2439304a3bbd563eae4ad4d4976f8a20daa56nat, 0xb7ed5b8e6b82ec4ba3c5a6eb57a54c2658522e2be704689778e2a00c6b8c78nat, 0x9a5a725b5eea9fee9983432d9f3b7aeffe4538b460d2c6e45454ea09113910fnat);
    square(b, 63690073, 0x9a5a725b5eea9fee9983432d9f3b7aeffe4538b460d2c6e45454ea09113910fnat, 0x30db064f07d66cc8fe053c8a22af11d949bc2644760f722e63745b4943022b58nat);
    square(b, 127380146, 0x30db064f07d66cc8fe053c8a22af11d949bc2644760f722e63745b4943022b58nat, 0x9e83961299effcaa1f425174acf9e960083114a39eaad64918afe75fa96cb4nat);
    next(b, 254760292, 0x9e83961299effcaa1f425174acf9e960083114a39eaad64918afe75fa96cb4nat, 0xb7ed5b8e6b82ec4ba3c5a6eb57a54c2658522e2be704689778e2a00c6b8c78nat, 0x212d79e5b416b6f0fd56dc8d168d6c0c4024ff270b3e0941b788f500b912f1fnat);
}

/// Minus one, out of the result.
proof fn chain_half(b: nat)
    requires
        b == 0x212d79e5b416b6f0fd56dc8d168d6c0c4024ff270b3e0941b788f500b912f1fnat,
    ensures
        power_is(b, 2147483648, 0x73eda753299d7d483339d80809a1d80553bda402fffe5bfeffffffff00000000nat),
{
    start(b);
    square(b, 1, 0x212d79e5b416b6f0fd56dc8d168d6c0c4024ff270b3e0941b788f500b912f1fnat, 0x6064ab727923597d51de21becd6a205fc7537fb902ebc38db427c9b367e4756anat);
    square(b, 2, 0x6064ab727923597d51de21becd6a205fc7537fb902ebc38db427c9b367e4756anat, 0x86d072b23b30c2904287254811c1dfbfad0084e66bac6118409a9ea14ebb608nat);
    square(b, 4, 0x86d072b23b30c2904287254811c1dfbfad0084e66bac6118409a9ea14ebb608nat, 0x705aba4f4a939684c3974d73a04fccf33ba4a15774a7ded175c55c7b575a0b79nat);
    square(b, 8, 0x705aba4f4a939684c3974d73a04fccf33ba4a15774a7ded175c55c7b575a0b79nat, 0x2967385d5e3e768297ae418dd274a80a4d7f3c3aa71efc0caba2f51842f2a254nat);
    square(b, 16, 0x2967385d5e3e768297ae418dd274a80a4d7f3c3aa71efc0caba2f51842f2a254nat, 0x350fe98d37b7a1144307987fe64cfc70ac96c38ff010ea74eb162203fd88f133nat);
    square(b, 32, 0x350fe98d37b7a1144307987fe64cfc70ac96c38ff010ea74eb162203fd88f133nat, 0x712d15805087c995dbb4edf0e2d35bc2c67b8c2882e0bfa7810fa372cca1d8benat);
    square(b, 64, 0x712d15805087c995dbb4edf0e2d35bc2c67b8c2882e0bfa7810fa372cca1d8benat, 0x16d9d3cdac5d094f95508d2747d39803bc535c5ce12fc974801c894c59a2e8ebnat);
    square(b, 128, 0x16d9d3cdac5d094f95508d2747d39803bc535c5ce12fc974801c894c59a2e8ebnat, 0x1d31dcdc6bd3118cc553ae2346900c958deffa3175fb0ab85b90153a1ab70e2cnat);
    square(b, 256, 0x1d31dcdc6bd3118cc553ae2346900c958deffa3175fb0ab85b90153a1ab70e2cnat, 0x5145c4cd2dc0beb0bcdafec84e55aa0255bbbf1eb63edd021e91484876504cf8nat);
    square(b, 512, 0x5145c4cd2dc0beb0bcdafec84e55aa0255bbbf1eb63edd021e91484876504cf8nat, 0x3ae26a333cbd83857d4257ea722c2e2127d1f4253037d7bc5b670eea53a56d1nat);
    square(b, 1024, 0x3ae26a333cbd83857d4257ea722c2e2127d1f4253037d7bc5b670eea53a56d1nat, 0x6eee34d57e7046e036f8f165fb4460f767c6630f9116e877007e082a436ba2e7nat);
    square(b, 2048, 0x6eee34d57e7046e036f8f165fb4460f767c6630f9116e877007e082a436ba2e7nat, 0x3436287f5f686d91556c35f6537d6971870c46fac2f0fcbd20b53cbe41144deanat);
    square(b, 4096, 0x3436287f5f686d91556c35f6537d6971870c46fac2f0fcbd20b53cbe41144deanat, 0x3a689e83aa0a1d802e1d9a1922cc3253a672867368812f7f6499688417cd0c14nat);
    square(b, 8192, 0x3a689e83aa0a1d802e1d9a1922cc3253a672867368812f7f6499688417cd0c14nat, 0x5ef5e8db0b8ac903fd7f05ba4610300c4f730e7ddd3ccc96bf87b689b9009408nat);
    square(b, 16384, 0x5ef5e8db0b8ac903fd7f05ba4610300c4f730e7ddd3ccc96bf87b689b9009408nat, 0x5deb333f8727901ebe905bd4fb9ac5c77d85a937ff858ec10251f7d8831e03enat);
    square(b, 32768, 0x5deb333f8727901ebe905bd4fb9ac5c77d85a937ff858ec10251f7d8831e03enat, 0x6709c6cd56aa725b0409ee987a02402c0caba63a29c01b06137b458acfc35f7anat);
    square(b, 65536, 0x6709c6cd56aa725b0409ee987a02402c0caba63a29c01b06137b458acfc35f7anat, 0x42c22911f5f07f43a22ba63dd6e7b1c839929d2e88fbbc57e6a354dda97eccd4nat);
    square(b, 131072, 0x42c22911f5f07f43a22ba63dd6e7b1c839929d2e88fbbc57e6a354dda97eccd4nat, 0x50646ac81fe1959577e48bf529ca9f2a82c057275306243d13e96ade69583404nat);
    square(b, 262144, 0x50646ac81fe1959577e48bf529ca9f2a82c057275306243d13e96ade69583404nat, 0xac00eb8b3f7f8da70491431cab3c3cc87d188ce7a02775923c9159959a0be92nat);
    square(b, 524288, 0xac00eb8b3f7f8da70491431cab3c3cc87d188ce7a02775923c9159959a0be92nat, 0x110cebd0c8e9101be155cb4893f9e9ac565af17137d56fc0450d9f977ea8ee05nat);
    square(b, 1048576, 0x110cebd0c8e9101be155cb4893f9e9ac565af17137d56fc0450d9f977ea8ee05nat, 0x43527a8bca252472eb674a1a620890d7a534af14b61e0abe74a1f6718c130477nat);
    square(b, 2097152, 0x43527a8bca252472eb674a1a620890d7a534af14b61e0abe74a1f6718c130477nat, 0x2f27b09858f43cef3ed6d55a6350721d79efd6b0570bf109d58a5af42d010ff9nat);
    square(b, 4194304, 0x2f27b09858f43cef3ed6d55a6350721d79efd6b0570bf109d58a5af42d010ff9nat, 0x1bb466679a5d88b1ecfbede342dee7f415c1ad4c687f28a233811ea1fe0c65f4nat);
    square(b, 8388608, 0x1bb466679a5d88b1ecfbede342dee7f415c1ad4c687f28a233811ea1fe0c65f4nat, 0x2e95da59a33dcbf232a732ae1a3b0aef752c84f3154125602cabadec2fe322b8nat);
    square(b, 16777216, 0x2e95da59a33dcbf232a732ae1a3b0aef752c84f3154125602cabadec2fe322b8nat, 0x7d0c802a94a946e8cbe2437f0b4b276501dff643be95635b750da4cab28e208nat);
    square(b, 33554432, 0x7d0c802a94a946e8cbe2437f0b4b276501dff643be95635b750da4cab28e208nat, 0xe4840ac57f86f5e293b1d67bc8de5d9a12a70a615d0b8e4d2fc5e69ac5db47fnat);
    square(b, 67108864, 0xe4840ac57f86f5e293b1d67bc8de5d9a12a70a615d0b8e4d2fc5e69ac5db47fnat, 0x476fa2fb6162ffabd84f8612c8b6cc00bd7fdf9c77487ae79733f3a6ba60eaa6nat);
    square(b, 134217728, 0x476fa2fb6162ffabd84f8612c8b6cc00bd7fdf9c77487ae79733f3a6ba60eaa6nat, 0x4f2c596e753e4fcc6e92a9c460afca4a1ef4e672ebc1e1bb95df4b360411fe73nat);
    square(b, 268435456, 0x4f2c596e753e4fcc6e92a9c460afca4a1ef4e672ebc1e1bb95df4b360411fe73nat, 0x3f96405d25a31660a733b23a98ca5b22a032824078eaa4fe8dd702cb688bc087nat);
    square(b, 536870912, 0x3f96405d25a31660a733b23a98ca5b22a032824078eaa4fe8dd702cb688bc087nat, 0x8d51ccce760304d0ec030002760300000001000000000000nat);
    square(b, 1073741824, 0x8d51ccce760304d0ec030002760300000001000000000000nat, 0x73eda753299d7d483339d80809a1d80553bda402fffe5bfeffffffff00000000nat);
}

/// The difference of a number and its residue is a multiple of the order.
proof fn lemma_residue(x: int, v: int)
    requires
        x % (field::order() as int) == v,
    ensures
        units::divides(field::order() as int, x - v),
{
    let q = field::order() as int;
    field::lemma_order_large();
    vstd::arithmetic::div_mod::lemma_fundamental_div_mod(x, q);
    units::lemma_divides(q, x / q);
}

/// The powers of the element: half of the large order leads to minus one, the large order to one,
/// and what lacks one factor of a prime to a power that less one has an inverse.
pub proof fn lemma_powers()
    ensures
        units::divides(
            field::order() as int,
            vstd::arithmetic::power::pow(element() as int, (units::large_order() / 2) as nat) + 1,
        ),
        units::divides(
            field::order() as int,
            vstd::arithmetic::power::pow(element() as int, units::large_order()) - 1,
        ),
        units::divides(
            field::order() as int,
            vstd::arithmetic::power::pow(
                element() as int,
                (units::large_order() / units::first_prime()) as nat,
            ) - first_power(),
        ),
        units::divides(field::order() as int, (first_power() - 1) * first_cofactor() - 1),
        units::divides(
            field::order() as int,
            vstd::arithmetic::power::pow(
                element() as int,
                (units::large_order() / units::second_prime()) as nat,
            ) - second_power(),
        ),
        units::divides(field::order() as int, (second_power() - 1) * second_cofactor() - 1),
{
    let a = element();
    let q = field::order() as int;
    let s = 0x4494c9aec22a3f25e7dd20d9f794401b8c91db536d17bba785959491e682e252nat;
    let u = 0x5e575e86bb7d0957508921973a746f87450c89be548484703ddb05b9e6363e75nat;
    let v = 0x609dfc52cef06ea1f32988522de990e802cfd18ab8dc733783d34a6cb4cd7559nat;
    let w = 0xb7ed5b8e6b82ec4ba3c5a6eb57a54c2658522e2be704689778e2a00c6b8c78nat;
    let x = 0x212d79e5b416b6f0fd56dc8d168d6c0c4024ff270b3e0941b788f500b912f1fnat;
    chain_first(a);
    chain_both(s);
    chain_twos(u);
    chain_lacks_first(v);
    chain_lacks_second(v);
    chain_square_first(u);
    chain_square_both(w);
    chain_half(x);
    compose(a, 906349, s, 254760293, u);
    compose(a, 230901736800257nat, u, 4294967296, v);
    compose(a, 991715408146703499395072nat, v, 254760293, first_power());
    compose(a, 991715408146703499395072nat, v, 906349, second_power());
    compose(a, 230901736800257nat, u, 906349, w);
    compose(a, 209277558247176131693nat, w, 254760293, x);
    compose(a, 53315612057375157732715266049nat, x, 2147483648, 0x73eda753299d7d483339d80809a1d80553bda402fffe5bfeffffffff00000000nat);
    square(a, 114494405076324789032426788480197066752nat, 0x73eda753299d7d483339d80809a1d80553bda402fffe5bfeffffffff00000000nat, 1);
    let half = vstd::arithmetic::power::pow(a as int, 114494405076324789032426788480197066752nat);
    let whole = vstd::arithmetic::power::pow(a as int, 228988810152649578064853576960394133504nat);
    let first = vstd::arithmetic::power::pow(a as int, 252649707952068770490013865476096nat);
    let second = vstd::arithmetic::power::pow(a as int, 898840268458356569973224112128nat);
    reveal(field::order);
    lemma_residue(half, q - 1);
    units::lemma_divides(q, 1);
    units::lemma_divides_sum(q, half - (q - 1), q);
    lemma_residue(whole, 1);
    lemma_residue(first, first_power() as int);
    lemma_residue(second, second_power() as int);
    units::lemma_divides(q, 0x495c76d6c216c28da10bb00e0f2d20c6efd66686adc07e73fcbc77fb38b48eanat as int);
    assert(0xa59bce66d135443a905cbe27f7ef0033465237fca4ffdb9927f6206dba51b09nat as int * 0x335a960203cb799e9d63ea562b4c2efb725b0bac6fad4ccc35c862c4a8b79d53nat as int - 1 == 0x73eda753299d7d483339d80809a1d80553bda402fffe5bfeffffffff00000001nat as int * 0x495c76d6c216c28da10bb00e0f2d20c6efd66686adc07e73fcbc77fb38b48eanat as int);
    units::lemma_divides(q, 0x41a80d886ea46b57b31c3a9ebc4f87fd4428fa4159017c85e2b656e778e42bd2nat as int);
    assert(0x6066d68091422459ea719b5c257f54a3a5509ba90dd017135d4facfcccdf73d5nat as int * 0x4ef49a8d838031b2174f19950fc68a46adf3dc6ba38b27920f44717257d57d07nat as int - 1 == 0x73eda753299d7d483339d80809a1d80553bda402fffe5bfeffffffff00000001nat as int * 0x41a80d886ea46b57b31c3a9ebc4f87fd4428fa4159017c85e2b656e778e42bd2nat as int);
    assert(units::large_order() / 2 == 114494405076324789032426788480197066752nat);
    assert(units::large_order() / units::first_prime() == 252649707952068770490013865476096nat);
    assert(units::large_order() / units::second_prime() == 898840268458356569973224112128nat);
}

} // verus!
