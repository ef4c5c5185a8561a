//! The default color palette: 22 color families in 11 shades, black and white,
//! each as hex, OKLCH and HSL, plus `transparent` and `current`.
use vstd::prelude::*;
use crate::text::{cat3, owned, str_eq};
use crate::types::ColorMode;

verus! {

/// The hex, OKLCH and HSL values of a palette color.
pub open spec fn color_entry(key: Seq<char>) -> Option<(Seq<char>, Seq<char>, Seq<char>)> {
    if key == "black"@ {
        Some(("#000000"@, "oklch(0 0 0)"@, "hsl(0, 0%, 0%)"@))
    } else if key == "white"@ {
        Some(("#ffffff"@, "oklch(1 0 0)"@, "hsl(0, 0%, 100%)"@))
    } else if key == "red-50"@ {
        Some(("#fef2f2"@, "oklch(0.971 0.013 17.38)"@, "hsl(0, 88%, 97%)"@))
    } else if key == "red-100"@ {
        Some(("#ffe2e2"@, "oklch(0.936 0.032 17.717)"@, "hsl(0, 99%, 94%)"@))
    } else if key == "red-200"@ {
        Some(("#ffc9c9"@, "oklch(0.885 0.062 18.334)"@, "hsl(0, 100%, 89%)"@))
    } else if key == "red-300"@ {
        Some(("#ffa2a2"@, "oklch(0.808 0.114 19.571)"@, "hsl(0, 100%, 82%)"@))
    } else if key == "red-400"@ {
        Some(("#ff6467"@, "oklch(0.704 0.191 22.216)"@, "hsl(359, 100%, 70%)"@))
    } else if key == "red-500"@ {
        Some(("#fb2c36"@, "oklch(0.637 0.237 25.331)"@, "hsl(357, 96%, 58%)"@))
    } else if key == "red-600"@ {
        Some(("#e7000b"@, "oklch(0.577 0.245 27.325)"@, "hsl(357, 100%, 45%)"@))
    } else if key == "red-700"@ {
        Some(("#c10007"@, "oklch(0.505 0.213 27.518)"@, "hsl(358, 100%, 38%)"@))
    } else if key == "red-800"@ {
        Some(("#9f0712"@, "oklch(0.444 0.177 26.899)"@, "hsl(356, 91%, 33%)"@))
    } else if key == "red-900"@ {
        Some(("#82181a"@, "oklch(0.396 0.141 25.723)"@, "hsl(359, 69%, 30%)"@))
    } else if key == "red-950"@ {
        Some(("#460809"@, "oklch(0.258 0.092 26.042)"@, "hsl(359, 79%, 15%)"@))
    } else if key == "orange-50"@ {
        Some(("#fff7ed"@, "oklch(0.98 0.016 73.684)"@, "hsl(34, 100%, 96%)"@))
    } else if key == "orange-100"@ {
        Some(("#ffedd4"@, "oklch(0.954 0.038 75.164)"@, "hsl(35, 100%, 92%)"@))
    } else if key == "orange-200"@ {
        Some(("#ffd6a7"@, "oklch(0.901 0.076 70.697)"@, "hsl(32, 100%, 83%)"@))
    } else if key == "orange-300"@ {
        Some(("#ffb86a"@, "oklch(0.837 0.128 66.29)"@, "hsl(32, 100%, 71%)"@))
    } else if key == "orange-400"@ {
        Some(("#ff8904"@, "oklch(0.75 0.183 55.934)"@, "hsl(32, 100%, 51%)"@))
    } else if key == "orange-500"@ {
        Some(("#ff6900"@, "oklch(0.705 0.213 47.604)"@, "hsl(25, 100%, 50%)"@))
    } else if key == "orange-600"@ {
        Some(("#f54900"@, "oklch(0.646 0.222 41.116)"@, "hsl(18, 100%, 48%)"@))
    } else if key == "orange-700"@ {
        Some(("#ca3500"@, "oklch(0.553 0.195 38.402)"@, "hsl(16, 100%, 40%)"@))
    } else if key == "orange-800"@ {
        Some(("#9f2d00"@, "oklch(0.47 0.157 37.304)"@, "hsl(17, 100%, 31%)"@))
    } else if key == "orange-900"@ {
        Some(("#7e2a0c"@, "oklch(0.408 0.123 38.172)"@, "hsl(16, 83%, 27%)"@))
    } else if key == "orange-950"@ {
        Some(("#441306"@, "oklch(0.266 0.079 36.259)"@, "hsl(13, 85%, 14%)"@))
    } else if key == "amber-50"@ {
        Some(("#fffbeb"@, "oklch(0.987 0.022 95.277)"@, "hsl(48, 100%, 96%)"@))
    } else if key == "amber-100"@ {
        Some(("#fef3c6"@, "oklch(0.962 0.059 95.617)"@, "hsl(48, 97%, 89%)"@))
    } else if key == "amber-200"@ {
        Some(("#fee685"@, "oklch(0.924 0.12 95.746)"@, "hsl(48, 98%, 76%)"@))
    } else if key == "amber-300"@ {
        Some(("#ffd230"@, "oklch(0.879 0.169 91.605)"@, "hsl(47, 100%, 59%)"@))
    } else if key == "amber-400"@ {
        Some(("#ffb900"@, "oklch(0.828 0.189 84.429)"@, "hsl(44, 100%, 50%)"@))
    } else if key == "amber-500"@ {
        Some(("#fe9a00"@, "oklch(0.769 0.188 70.08)"@, "hsl(36, 100%, 50%)"@))
    } else if key == "amber-600"@ {
        Some(("#e17100"@, "oklch(0.666 0.179 58.318)"@, "hsl(30, 100%, 44%)"@))
    } else if key == "amber-700"@ {
        Some(("#bb4d00"@, "oklch(0.555 0.163 48.998)"@, "hsl(25, 100%, 37%)"@))
    } else if key == "amber-800"@ {
        Some(("#973c00"@, "oklch(0.473 0.137 46.201)"@, "hsl(24, 100%, 30%)"@))
    } else if key == "amber-900"@ {
        Some(("#7b3306"@, "oklch(0.414 0.112 45.904)"@, "hsl(23, 90%, 25%)"@))
    } else if key == "amber-950"@ {
        Some(("#461901"@, "oklch(0.279 0.077 45.635)"@, "hsl(21, 97%, 14%)"@))
    } else if key == "yellow-50"@ {
        Some(("#fefce8"@, "oklch(0.987 0.026 102.212)"@, "hsl(55, 91%, 95%)"@))
    } else if key == "yellow-100"@ {
        Some(("#fef9c2"@, "oklch(0.973 0.071 103.193)"@, "hsl(55, 98%, 88%)"@))
    } else if key == "yellow-200"@ {
        Some(("#fff085"@, "oklch(0.945 0.129 101.54)"@, "hsl(53, 99%, 76%)"@))
    } else if key == "yellow-300"@ {
        Some(("#ffdf20"@, "oklch(0.905 0.182 98.111)"@, "hsl(52, 100%, 56%)"@))
    } else if key == "yellow-400"@ {
        Some(("#fdc700"@, "oklch(0.852 0.199 91.936)"@, "hsl(47, 100%, 50%)"@))
    } else if key == "yellow-500"@ {
        Some(("#f0b100"@, "oklch(0.795 0.184 86.047)"@, "hsl(44, 100%, 47%)"@))
    } else if key == "yellow-600"@ {
        Some(("#d08700"@, "oklch(0.681 0.162 75.834)"@, "hsl(39, 100%, 41%)"@))
    } else if key == "yellow-700"@ {
        Some(("#a65f00"@, "oklch(0.554 0.135 66.442)"@, "hsl(34, 100%, 33%)"@))
    } else if key == "yellow-800"@ {
        Some(("#894b00"@, "oklch(0.476 0.114 61.907)"@, "hsl(33, 100%, 27%)"@))
    } else if key == "yellow-900"@ {
        Some(("#733e0a"@, "oklch(0.421 0.095 57.708)"@, "hsl(30, 83%, 25%)"@))
    } else if key == "yellow-950"@ {
        Some(("#432004"@, "oklch(0.286 0.066 53.813)"@, "hsl(26, 88%, 14%)"@))
    } else if key == "lime-50"@ {
        Some(("#f7fee7"@, "oklch(0.986 0.031 120.757)"@, "hsl(78, 93%, 95%)"@))
    } else if key == "lime-100"@ {
        Some(("#ecfcca"@, "oklch(0.967 0.067 122.328)"@, "hsl(80, 90%, 89%)"@))
    } else if key == "lime-200"@ {
        Some(("#d8f999"@, "oklch(0.938 0.127 124.321)"@, "hsl(81, 90%, 79%)"@))
    } else if key == "lime-300"@ {
        Some(("#bbf451"@, "oklch(0.897 0.196 126.665)"@, "hsl(81, 88%, 64%)"@))
    } else if key == "lime-400"@ {
        Some(("#9ae600"@, "oklch(0.841 0.238 128.85)"@, "hsl(80, 100%, 45%)"@))
    } else if key == "lime-500"@ {
        Some(("#7ccf00"@, "oklch(0.768 0.233 130.85)"@, "hsl(84, 100%, 40%)"@))
    } else if key == "lime-600"@ {
        Some(("#5ea500"@, "oklch(0.648 0.2 131.684)"@, "hsl(86, 100%, 32%)"@))
    } else if key == "lime-700"@ {
        Some(("#497d00"@, "oklch(0.532 0.157 131.589)"@, "hsl(85, 100%, 25%)"@))
    } else if key == "lime-800"@ {
        Some(("#3c6300"@, "oklch(0.453 0.124 130.933)"@, "hsl(83, 100%, 19%)"@))
    } else if key == "lime-900"@ {
        Some(("#35530e"@, "oklch(0.405 0.101 131.063)"@, "hsl(87, 71%, 19%)"@))
    } else if key == "lime-950"@ {
        Some(("#192e03"@, "oklch(0.274 0.072 132.109)"@, "hsl(89, 89%, 10%)"@))
    } else if key == "green-50"@ {
        Some(("#f0fdf4"@, "oklch(0.982 0.018 155.826)"@, "hsl(138, 77%, 97%)"@))
    } else if key == "green-100"@ {
        Some(("#dcfce7"@, "oklch(0.962 0.044 156.743)"@, "hsl(141, 84%, 92%)"@))
    } else if key == "green-200"@ {
        Some(("#b9f8cf"@, "oklch(0.925 0.084 155.995)"@, "hsl(141, 81%, 85%)"@))
    } else if key == "green-300"@ {
        Some(("#7bf1a8"@, "oklch(0.871 0.15 154.449)"@, "hsl(143, 81%, 71%)"@))
    } else if key == "green-400"@ {
        Some(("#05df72"@, "oklch(0.792 0.209 151.711)"@, "hsl(150, 96%, 45%)"@))
    } else if key == "green-500"@ {
        Some(("#00c950"@, "oklch(0.723 0.219 149.579)"@, "hsl(144, 100%, 39%)"@))
    } else if key == "green-600"@ {
        Some(("#00a63e"@, "oklch(0.627 0.194 149.214)"@, "hsl(142, 100%, 33%)"@))
    } else if key == "green-700"@ {
        Some(("#008236"@, "oklch(0.527 0.154 150.069)"@, "hsl(145, 100%, 25%)"@))
    } else if key == "green-800"@ {
        Some(("#016630"@, "oklch(0.448 0.119 151.328)"@, "hsl(148, 97%, 20%)"@))
    } else if key == "green-900"@ {
        Some(("#0d542b"@, "oklch(0.393 0.095 152.535)"@, "hsl(146, 73%, 19%)"@))
    } else if key == "green-950"@ {
        Some(("#032e15"@, "oklch(0.266 0.065 152.934)"@, "hsl(145, 88%, 10%)"@))
    } else if key == "emerald-50"@ {
        Some(("#ecfdf5"@, "oklch(0.979 0.021 166.113)"@, "hsl(152, 81%, 96%)"@))
    } else if key == "emerald-100"@ {
        Some(("#d0fae5"@, "oklch(0.95 0.052 163.051)"@, "hsl(149, 81%, 90%)"@))
    } else if key == "emerald-200"@ {
        Some(("#a4f4cf"@, "oklch(0.905 0.093 164.15)"@, "hsl(153, 78%, 80%)"@))
    } else if key == "emerald-300"@ {
        Some(("#5ee9b5"@, "oklch(0.845 0.143 164.978)"@, "hsl(157, 76%, 64%)"@))
    } else if key == "emerald-400"@ {
        Some(("#00d492"@, "oklch(0.765 0.177 163.223)"@, "hsl(161, 100%, 42%)"@))
    } else if key == "emerald-500"@ {
        Some(("#00bc7d"@, "oklch(0.696 0.17 162.48)"@, "hsl(160, 100%, 37%)"@))
    } else if key == "emerald-600"@ {
        Some(("#009966"@, "oklch(0.596 0.145 163.225)"@, "hsl(160, 100%, 30%)"@))
    } else if key == "emerald-700"@ {
        Some(("#007a55"@, "oklch(0.508 0.118 165.612)"@, "hsl(162, 100%, 24%)"@))
    } else if key == "emerald-800"@ {
        Some(("#006045"@, "oklch(0.432 0.095 166.913)"@, "hsl(163, 100%, 19%)"@))
    } else if key == "emerald-900"@ {
        Some(("#004f3b"@, "oklch(0.378 0.077 168.94)"@, "hsl(165, 100%, 15%)"@))
    } else if key == "emerald-950"@ {
        Some(("#002c22"@, "oklch(0.262 0.051 172.552)"@, "hsl(166, 100%, 9%)"@))
    } else if key == "teal-50"@ {
        Some(("#f0fdfa"@, "oklch(0.984 0.014 180.72)"@, "hsl(166, 77%, 97%)"@))
    } else if key == "teal-100"@ {
        Some(("#cbfbf1"@, "oklch(0.953 0.051 180.801)"@, "hsl(167, 87%, 89%)"@))
    } else if key == "teal-200"@ {
        Some(("#96f7e4"@, "oklch(0.91 0.096 180.426)"@, "hsl(169, 85%, 78%)"@))
    } else if key == "teal-300"@ {
        Some(("#46ecd5"@, "oklch(0.855 0.138 181.071)"@, "hsl(171, 82%, 60%)"@))
    } else if key == "teal-400"@ {
        Some(("#00d5be"@, "oklch(0.777 0.152 181.912)"@, "hsl(173, 100%, 42%)"@))
    } else if key == "teal-500"@ {
        Some(("#00bba7"@, "oklch(0.704 0.14 182.503)"@, "hsl(174, 100%, 37%)"@))
    } else if key == "teal-600"@ {
        Some(("#009689"@, "oklch(0.6 0.118 184.704)"@, "hsl(175, 100%, 29%)"@))
    } else if key == "teal-700"@ {
        Some(("#00786f"@, "oklch(0.511 0.096 186.391)"@, "hsl(176, 100%, 23%)"@))
    } else if key == "teal-800"@ {
        Some(("#005f5a"@, "oklch(0.437 0.078 188.216)"@, "hsl(177, 100%, 19%)"@))
    } else if key == "teal-900"@ {
        Some(("#0b4f4a"@, "oklch(0.386 0.063 188.416)"@, "hsl(176, 76%, 18%)"@))
    } else if key == "teal-950"@ {
        Some(("#022f2e"@, "oklch(0.277 0.046 192.524)"@, "hsl(179, 92%, 10%)"@))
    } else if key == "cyan-50"@ {
        Some(("#ecfeff"@, "oklch(0.984 0.019 200.873)"@, "hsl(183, 100%, 96%)"@))
    } else if key == "cyan-100"@ {
        Some(("#cefafe"@, "oklch(0.956 0.045 203.388)"@, "hsl(185, 96%, 90%)"@))
    } else if key == "cyan-200"@ {
        Some(("#a2f4fd"@, "oklch(0.917 0.08 205.041)"@, "hsl(186, 96%, 81%)"@))
    } else if key == "cyan-300"@ {
        Some(("#53eafd"@, "oklch(0.865 0.127 207.078)"@, "hsl(187, 97%, 66%)"@))
    } else if key == "cyan-400"@ {
        Some(("#00d3f2"@, "oklch(0.789 0.154 211.53)"@, "hsl(188, 100%, 48%)"@))
    } else if key == "cyan-500"@ {
        Some(("#00b8db"@, "oklch(0.715 0.143 215.221)"@, "hsl(189, 100%, 43%)"@))
    } else if key == "cyan-600"@ {
        Some(("#0092b8"@, "oklch(0.609 0.126 221.723)"@, "hsl(192, 100%, 36%)"@))
    } else if key == "cyan-700"@ {
        Some(("#007595"@, "oklch(0.52 0.105 223.128)"@, "hsl(193, 100%, 29%)"@))
    } else if key == "cyan-800"@ {
        Some(("#005f78"@, "oklch(0.45 0.085 224.283)"@, "hsl(193, 100%, 24%)"@))
    } else if key == "cyan-900"@ {
        Some(("#104e64"@, "oklch(0.398 0.07 227.392)"@, "hsl(196, 72%, 23%)"@))
    } else if key == "cyan-950"@ {
        Some(("#053345"@, "oklch(0.302 0.056 229.695)"@, "hsl(197, 85%, 15%)"@))
    } else if key == "sky-50"@ {
        Some(("#f0f9ff"@, "oklch(0.977 0.013 236.62)"@, "hsl(203, 100%, 97%)"@))
    } else if key == "sky-100"@ {
        Some(("#dff2fe"@, "oklch(0.951 0.026 236.824)"@, "hsl(204, 97%, 94%)"@))
    } else if key == "sky-200"@ {
        Some(("#b8e6fe"@, "oklch(0.901 0.058 230.902)"@, "hsl(201, 98%, 86%)"@))
    } else if key == "sky-300"@ {
        Some(("#74d4ff"@, "oklch(0.828 0.111 230.318)"@, "hsl(198, 100%, 73%)"@))
    } else if key == "sky-400"@ {
        Some(("#00bcff"@, "oklch(0.746 0.16 232.661)"@, "hsl(196, 100%, 50%)"@))
    } else if key == "sky-500"@ {
        Some(("#00a6f4"@, "oklch(0.685 0.169 237.323)"@, "hsl(199, 100%, 48%)"@))
    } else if key == "sky-600"@ {
        Some(("#0084d1"@, "oklch(0.588 0.158 241.966)"@, "hsl(202, 100%, 41%)"@))
    } else if key == "sky-700"@ {
        Some(("#0069a8"@, "oklch(0.5 0.134 242.749)"@, "hsl(203, 100%, 33%)"@))
    } else if key == "sky-800"@ {
        Some(("#00598a"@, "oklch(0.443 0.11 240.79)"@, "hsl(201, 100%, 27%)"@))
    } else if key == "sky-900"@ {
        Some(("#024a70"@, "oklch(0.391 0.09 240.876)"@, "hsl(201, 97%, 22%)"@))
    } else if key == "sky-950"@ {
        Some(("#052f4a"@, "oklch(0.293 0.066 243.157)"@, "hsl(204, 87%, 16%)"@))
    } else if key == "blue-50"@ {
        Some(("#eff6ff"@, "oklch(0.97 0.014 254.604)"@, "hsl(214, 96%, 97%)"@))
    } else if key == "blue-100"@ {
        Some(("#dbeafe"@, "oklch(0.932 0.032 255.585)"@, "hsl(214, 96%, 93%)"@))
    } else if key == "blue-200"@ {
        Some(("#bedbff"@, "oklch(0.882 0.059 254.128)"@, "hsl(213, 100%, 87%)"@))
    } else if key == "blue-300"@ {
        Some(("#8ec5ff"@, "oklch(0.809 0.105 251.813)"@, "hsl(211, 100%, 78%)"@))
    } else if key == "blue-400"@ {
        Some(("#51a2ff"@, "oklch(0.707 0.165 254.624)"@, "hsl(212, 100%, 66%)"@))
    } else if key == "blue-500"@ {
        Some(("#2b7fff"@, "oklch(0.623 0.214 259.815)"@, "hsl(216, 100%, 58%)"@))
    } else if key == "blue-600"@ {
        Some(("#155dfc"@, "oklch(0.546 0.245 262.881)"@, "hsl(221, 97%, 53%)"@))
    } else if key == "blue-700"@ {
        Some(("#1447e6"@, "oklch(0.488 0.243 264.376)"@, "hsl(225, 84%, 49%)"@))
    } else if key == "blue-800"@ {
        Some(("#193cb8"@, "oklch(0.424 0.199 265.638)"@, "hsl(227, 76%, 41%)"@))
    } else if key == "blue-900"@ {
        Some(("#1c398e"@, "oklch(0.379 0.146 265.522)"@, "hsl(225, 67%, 33%)"@))
    } else if key == "blue-950"@ {
        Some(("#162456"@, "oklch(0.282 0.091 267.935)"@, "hsl(227, 59%, 21%)"@))
    } else if key == "indigo-50"@ {
        Some(("#eef2ff"@, "oklch(0.962 0.018 272.314)"@, "hsl(226, 100%, 97%)"@))
    } else if key == "indigo-100"@ {
        Some(("#e0e7ff"@, "oklch(0.93 0.034 272.788)"@, "hsl(226, 100%, 94%)"@))
    } else if key == "indigo-200"@ {
        Some(("#c6d2ff"@, "oklch(0.87 0.065 274.039)"@, "hsl(228, 100%, 89%)"@))
    } else if key == "indigo-300"@ {
        Some(("#a3b3ff"@, "oklch(0.785 0.115 274.713)"@, "hsl(230, 100%, 82%)"@))
    } else if key == "indigo-400"@ {
        Some(("#7c86ff"@, "oklch(0.673 0.182 276.935)"@, "hsl(235, 100%, 74%)"@))
    } else if key == "indigo-500"@ {
        Some(("#615fff"@, "oklch(0.585 0.233 277.117)"@, "hsl(241, 100%, 69%)"@))
    } else if key == "indigo-600"@ {
        Some(("#4f39f6"@, "oklch(0.511 0.262 276.966)"@, "hsl(247, 92%, 60%)"@))
    } else if key == "indigo-700"@ {
        Some(("#432dd7"@, "oklch(0.457 0.24 277.023)"@, "hsl(248, 68%, 51%)"@))
    } else if key == "indigo-800"@ {
        Some(("#372aac"@, "oklch(0.398 0.195 277.366)"@, "hsl(246, 61%, 42%)"@))
    } else if key == "indigo-900"@ {
        Some(("#312c85"@, "oklch(0.359 0.144 278.697)"@, "hsl(243, 50%, 35%)"@))
    } else if key == "indigo-950"@ {
        Some(("#1e1a4d"@, "oklch(0.257 0.09 281.288)"@, "hsl(244, 49%, 20%)"@))
    } else if key == "violet-50"@ {
        Some(("#f5f3ff"@, "oklch(0.969 0.016 293.756)"@, "hsl(250, 99%, 98%)"@))
    } else if key == "violet-100"@ {
        Some(("#ede9fe"@, "oklch(0.943 0.029 294.588)"@, "hsl(251, 93%, 96%)"@))
    } else if key == "violet-200"@ {
        Some(("#ddd6ff"@, "oklch(0.894 0.057 293.283)"@, "hsl(251, 100%, 92%)"@))
    } else if key == "violet-300"@ {
        Some(("#c4b4ff"@, "oklch(0.811 0.111 293.571)"@, "hsl(253, 100%, 85%)"@))
    } else if key == "violet-400"@ {
        Some(("#a684ff"@, "oklch(0.702 0.183 293.541)"@, "hsl(257, 100%, 76%)"@))
    } else if key == "violet-500"@ {
        Some(("#8e51ff"@, "oklch(0.606 0.25 292.717)"@, "hsl(261, 100%, 66%)"@))
    } else if key == "violet-600"@ {
        Some(("#7f22fe"@, "oklch(0.541 0.281 293.009)"@, "hsl(265, 99%, 56%)"@))
    } else if key == "violet-700"@ {
        Some(("#7008e7"@, "oklch(0.491 0.27 292.581)"@, "hsl(268, 93%, 47%)"@))
    } else if key == "violet-800"@ {
        Some(("#5d0ec0"@, "oklch(0.432 0.232 292.759)"@, "hsl(267, 86%, 40%)"@))
    } else if key == "violet-900"@ {
        Some(("#4d179a"@, "oklch(0.38 0.189 293.745)"@, "hsl(265, 74%, 35%)"@))
    } else if key == "violet-950"@ {
        Some(("#2f0d68"@, "oklch(0.283 0.141 291.089)"@, "hsl(262, 78%, 23%)"@))
    } else if key == "purple-50"@ {
        Some(("#faf5ff"@, "oklch(0.977 0.014 308.299)"@, "hsl(270, 99%, 98%)"@))
    } else if key == "purple-100"@ {
        Some(("#f3e8ff"@, "oklch(0.946 0.033 307.174)"@, "hsl(269, 100%, 95%)"@))
    } else if key == "purple-200"@ {
        Some(("#e9d4ff"@, "oklch(0.902 0.063 306.703)"@, "hsl(269, 100%, 92%)"@))
    } else if key == "purple-300"@ {
        Some(("#dab2ff"@, "oklch(0.827 0.119 306.383)"@, "hsl(271, 100%, 85%)"@))
    } else if key == "purple-400"@ {
        Some(("#c27aff"@, "oklch(0.714 0.203 305.504)"@, "hsl(272, 100%, 74%)"@))
    } else if key == "purple-500"@ {
        Some(("#ad46ff"@, "oklch(0.627 0.265 303.9)"@, "hsl(273, 100%, 64%)"@))
    } else if key == "purple-600"@ {
        Some(("#9810fa"@, "oklch(0.558 0.288 302.321)"@, "hsl(275, 96%, 52%)"@))
    } else if key == "purple-700"@ {
        Some(("#8200db"@, "oklch(0.496 0.265 301.924)"@, "hsl(276, 100%, 43%)"@))
    } else if key == "purple-800"@ {
        Some(("#6e11b0"@, "oklch(0.438 0.218 303.724)"@, "hsl(275, 82%, 38%)"@))
    } else if key == "purple-900"@ {
        Some(("#59168b"@, "oklch(0.381 0.176 304.987)"@, "hsl(275, 72%, 32%)"@))
    } else if key == "purple-950"@ {
        Some(("#3c0366"@, "oklch(0.291 0.149 302.717)"@, "hsl(274, 94%, 21%)"@))
    } else if key == "fuchsia-50"@ {
        Some(("#fdf4ff"@, "oklch(0.977 0.017 320.058)"@, "hsl(289, 96%, 98%)"@))
    } else if key == "fuchsia-100"@ {
        Some(("#fae8ff"@, "oklch(0.952 0.037 318.852)"@, "hsl(288, 100%, 95%)"@))
    } else if key == "fuchsia-200"@ {
        Some(("#f6cfff"@, "oklch(0.903 0.076 319.62)"@, "hsl(288, 100%, 91%)"@))
    } else if key == "fuchsia-300"@ {
        Some(("#f4a8ff"@, "oklch(0.833 0.145 321.434)"@, "hsl(292, 100%, 83%)"@))
    } else if key == "fuchsia-400"@ {
        Some(("#ed6aff"@, "oklch(0.74 0.238 322.16)"@, "hsl(293, 100%, 71%)"@))
    } else if key == "fuchsia-500"@ {
        Some(("#e12afb"@, "oklch(0.667 0.295 322.15)"@, "hsl(293, 96%, 58%)"@))
    } else if key == "fuchsia-600"@ {
        Some(("#c800de"@, "oklch(0.591 0.293 322.896)"@, "hsl(294, 100%, 44%)"@))
    } else if key == "fuchsia-700"@ {
        Some(("#a800b7"@, "oklch(0.518 0.253 323.949)"@, "hsl(295, 100%, 36%)"@))
    } else if key == "fuchsia-800"@ {
        Some(("#8a0194"@, "oklch(0.452 0.211 324.591)"@, "hsl(296, 98%, 29%)"@))
    } else if key == "fuchsia-900"@ {
        Some(("#721378"@, "oklch(0.401 0.17 325.612)"@, "hsl(297, 72%, 27%)"@))
    } else if key == "fuchsia-950"@ {
        Some(("#4b004f"@, "oklch(0.293 0.136 325.661)"@, "hsl(297, 99%, 16%)"@))
    } else if key == "pink-50"@ {
        Some(("#fdf2f8"@, "oklch(0.971 0.014 343.198)"@, "hsl(327, 71%, 97%)"@))
    } else if key == "pink-100"@ {
        Some(("#fce7f3"@, "oklch(0.948 0.028 342.258)"@, "hsl(326, 79%, 95%)"@))
    } else if key == "pink-200"@ {
        Some(("#fccee8"@, "oklch(0.899 0.061 343.231)"@, "hsl(326, 88%, 90%)"@))
    } else if key == "pink-300"@ {
        Some(("#fda5d5"@, "oklch(0.823 0.12 346.018)"@, "hsl(327, 97%, 82%)"@))
    } else if key == "pink-400"@ {
        Some(("#fb64b6"@, "oklch(0.718 0.202 349.761)"@, "hsl(327, 95%, 69%)"@))
    } else if key == "pink-500"@ {
        Some(("#f6339a"@, "oklch(0.656 0.241 354.308)"@, "hsl(328, 92%, 58%)"@))
    } else if key == "pink-600"@ {
        Some(("#e60076"@, "oklch(0.592 0.249 0.584)"@, "hsl(329, 100%, 45%)"@))
    } else if key == "pink-700"@ {
        Some(("#c6005c"@, "oklch(0.525 0.223 3.958)"@, "hsl(332, 100%, 39%)"@))
    } else if key == "pink-800"@ {
        Some(("#a3004c"@, "oklch(0.459 0.187 3.815)"@, "hsl(332, 100%, 32%)"@))
    } else if key == "pink-900"@ {
        Some(("#861043"@, "oklch(0.408 0.153 2.432)"@, "hsl(334, 78%, 29%)"@))
    } else if key == "pink-950"@ {
        Some(("#510424"@, "oklch(0.284 0.109 3.907)"@, "hsl(335, 91%, 17%)"@))
    } else if key == "rose-50"@ {
        Some(("#fff1f2"@, "oklch(0.969 0.015 12.422)"@, "hsl(356, 97%, 97%)"@))
    } else if key == "rose-100"@ {
        Some(("#ffe4e6"@, "oklch(0.941 0.03 12.58)"@, "hsl(356, 100%, 95%)"@))
    } else if key == "rose-200"@ {
        Some(("#ffccd3"@, "oklch(0.892 0.058 10.001)"@, "hsl(353, 100%, 90%)"@))
    } else if key == "rose-300"@ {
        Some(("#ffa1ad"@, "oklch(0.81 0.117 11.638)"@, "hsl(352, 100%, 81%)"@))
    } else if key == "rose-400"@ {
        Some(("#ff637e"@, "oklch(0.712 0.194 13.428)"@, "hsl(350, 100%, 69%)"@))
    } else if key == "rose-500"@ {
        Some(("#ff2056"@, "oklch(0.645 0.246 16.439)"@, "hsl(345, 100%, 56%)"@))
    } else if key == "rose-600"@ {
        Some(("#ec003f"@, "oklch(0.586 0.253 17.585)"@, "hsl(344, 100%, 46%)"@))
    } else if key == "rose-700"@ {
        Some(("#c70036"@, "oklch(0.514 0.222 16.935)"@, "hsl(344, 100%, 39%)"@))
    } else if key == "rose-800"@ {
        Some(("#a50036"@, "oklch(0.455 0.188 13.697)"@, "hsl(340, 100%, 32%)"@))
    } else if key == "rose-900"@ {
        Some(("#8b0836"@, "oklch(0.41 0.159 10.272)"@, "hsl(339, 90%, 29%)"@))
    } else if key == "rose-950"@ {
        Some(("#4d0218"@, "oklch(0.271 0.105 12.094)"@, "hsl(342, 94%, 16%)"@))
    } else if key == "slate-50"@ {
        Some(("#f8fafc"@, "oklch(0.984 0.003 247.858)"@, "hsl(210, 35%, 98%)"@))
    } else if key == "slate-100"@ {
        Some(("#f1f5f9"@, "oklch(0.968 0.007 247.896)"@, "hsl(210, 41%, 96%)"@))
    } else if key == "slate-200"@ {
        Some(("#e2e8f0"@, "oklch(0.929 0.013 255.508)"@, "hsl(214, 33%, 91%)"@))
    } else if key == "slate-300"@ {
        Some(("#cad5e2"@, "oklch(0.869 0.022 252.894)"@, "hsl(213, 30%, 84%)"@))
    } else if key == "slate-400"@ {
        Some(("#90a1b9"@, "oklch(0.704 0.04 256.788)"@, "hsl(215, 23%, 65%)"@))
    } else if key == "slate-500"@ {
        Some(("#62748e"@, "oklch(0.554 0.046 257.417)"@, "hsl(215, 18%, 47%)"@))
    } else if key == "slate-600"@ {
        Some(("#45556c"@, "oklch(0.446 0.043 257.281)"@, "hsl(215, 22%, 35%)"@))
    } else if key == "slate-700"@ {
        Some(("#314158"@, "oklch(0.372 0.044 257.287)"@, "hsl(215, 28%, 27%)"@))
    } else if key == "slate-800"@ {
        Some(("#1d293d"@, "oklch(0.279 0.041 260.031)"@, "hsl(217, 36%, 18%)"@))
    } else if key == "slate-900"@ {
        Some(("#0f172b"@, "oklch(0.208 0.042 265.755)"@, "hsl(222, 49%, 11%)"@))
    } else if key == "slate-950"@ {
        Some(("#020618"@, "oklch(0.129 0.042 264.695)"@, "hsl(229, 85%, 5%)"@))
    } else if key == "gray-50"@ {
        Some(("#f9fafb"@, "oklch(0.985 0.002 247.839)"@, "hsl(210, 24%, 98%)"@))
    } else if key == "gray-100"@ {
        Some(("#f3f4f6"@, "oklch(0.967 0.003 264.542)"@, "hsl(220, 15%, 96%)"@))
    } else if key == "gray-200"@ {
        Some(("#e5e7eb"@, "oklch(0.928 0.006 264.531)"@, "hsl(220, 14%, 91%)"@))
    } else if key == "gray-300"@ {
        Some(("#d1d5dc"@, "oklch(0.872 0.01 258.338)"@, "hsl(216, 13%, 84%)"@))
    } else if key == "gray-400"@ {
        Some(("#99a1af"@, "oklch(0.707 0.022 261.325)"@, "hsl(218, 12%, 64%)"@))
    } else if key == "gray-500"@ {
        Some(("#6a7282"@, "oklch(0.551 0.027 264.364)"@, "hsl(220, 10%, 46%)"@))
    } else if key == "gray-600"@ {
        Some(("#4a5565"@, "oklch(0.446 0.03 256.802)"@, "hsl(215, 16%, 34%)"@))
    } else if key == "gray-700"@ {
        Some(("#364153"@, "oklch(0.373 0.034 259.733)"@, "hsl(217, 21%, 27%)"@))
    } else if key == "gray-800"@ {
        Some(("#1e2939"@, "oklch(0.278 0.033 256.848)"@, "hsl(215, 31%, 17%)"@))
    } else if key == "gray-900"@ {
        Some(("#101828"@, "oklch(0.21 0.034 264.665)"@, "hsl(221, 42%, 11%)"@))
    } else if key == "gray-950"@ {
        Some(("#030712"@, "oklch(0.13 0.028 261.692)"@, "hsl(224, 72%, 4%)"@))
    } else if key == "zinc-50"@ {
        Some(("#fafafa"@, "oklch(0.985 0 0)"@, "hsl(180, 0%, 98%)"@))
    } else if key == "zinc-100"@ {
        Some(("#f4f4f5"@, "oklch(0.967 0.001 286.375)"@, "hsl(240, 4%, 96%)"@))
    } else if key == "zinc-200"@ {
        Some(("#e4e4e7"@, "oklch(0.92 0.004 286.32)"@, "hsl(240, 6%, 90%)"@))
    } else if key == "zinc-300"@ {
        Some(("#d4d4d8"@, "oklch(0.871 0.006 286.286)"@, "hsl(240, 5%, 84%)"@))
    } else if key == "zinc-400"@ {
        Some(("#9f9fa9"@, "oklch(0.705 0.015 286.067)"@, "hsl(240, 6%, 64%)"@))
    } else if key == "zinc-500"@ {
        Some(("#71717b"@, "oklch(0.552 0.016 285.938)"@, "hsl(240, 4%, 46%)"@))
    } else if key == "zinc-600"@ {
        Some(("#52525c"@, "oklch(0.442 0.017 285.786)"@, "hsl(240, 6%, 34%)"@))
    } else if key == "zinc-700"@ {
        Some(("#3f3f46"@, "oklch(0.37 0.013 285.805)"@, "hsl(240, 6%, 26%)"@))
    } else if key == "zinc-800"@ {
        Some(("#27272a"@, "oklch(0.274 0.006 286.033)"@, "hsl(240, 4%, 16%)"@))
    } else if key == "zinc-900"@ {
        Some(("#18181b"@, "oklch(0.21 0.006 285.885)"@, "hsl(240, 6%, 10%)"@))
    } else if key == "zinc-950"@ {
        Some(("#09090b"@, "oklch(0.141 0.005 285.823)"@, "hsl(240, 11%, 4%)"@))
    } else if key == "neutral-50"@ {
        Some(("#fafafa"@, "oklch(0.985 0 0)"@, "hsl(180, 0%, 98%)"@))
    } else if key == "neutral-100"@ {
        Some(("#f5f5f5"@, "oklch(0.97 0 0)"@, "hsl(120, 0%, 96%)"@))
    } else if key == "neutral-200"@ {
        Some(("#e5e5e5"@, "oklch(0.922 0 0)"@, "hsl(240, 0%, 90%)"@))
    } else if key == "neutral-300"@ {
        Some(("#d4d4d4"@, "oklch(0.87 0 0)"@, "hsl(0, 0%, 83%)"@))
    } else if key == "neutral-400"@ {
        Some(("#a1a1a1"@, "oklch(0.708 0 0)"@, "hsl(0, 0%, 63%)"@))
    } else if key == "neutral-500"@ {
        Some(("#737373"@, "oklch(0.556 0 0)"@, "hsl(0, 0%, 45%)"@))
    } else if key == "neutral-600"@ {
        Some(("#525252"@, "oklch(0.439 0 0)"@, "hsl(180, 0%, 32%)"@))
    } else if key == "neutral-700"@ {
        Some(("#404040"@, "oklch(0.371 0 0)"@, "hsl(240, 0%, 25%)"@))
    } else if key == "neutral-800"@ {
        Some(("#262626"@, "oklch(0.269 0 0)"@, "hsl(0, 0%, 15%)"@))
    } else if key == "neutral-900"@ {
        Some(("#171717"@, "oklch(0.205 0 0)"@, "hsl(0, 0%, 9%)"@))
    } else if key == "neutral-950"@ {
        Some(("#0a0a0a"@, "oklch(0.145 0 0)"@, "hsl(330, 0%, 4%)"@))
    } else if key == "stone-50"@ {
        Some(("#fafaf9"@, "oklch(0.985 0.001 106.423)"@, "hsl(60, 7%, 98%)"@))
    } else if key == "stone-100"@ {
        Some(("#f5f5f4"@, "oklch(0.97 0.001 106.424)"@, "hsl(60, 4%, 96%)"@))
    } else if key == "stone-200"@ {
        Some(("#e7e5e4"@, "oklch(0.923 0.003 48.717)"@, "hsl(20, 7%, 90%)"@))
    } else if key == "stone-300"@ {
        Some(("#d6d3d1"@, "oklch(0.869 0.005 56.366)"@, "hsl(24, 7%, 83%)"@))
    } else if key == "stone-400"@ {
        Some(("#a6a09b"@, "oklch(0.709 0.01 56.259)"@, "hsl(24, 6%, 63%)"@))
    } else if key == "stone-500"@ {
        Some(("#79716b"@, "oklch(0.553 0.013 58.071)"@, "hsl(25, 6%, 45%)"@))
    } else if key == "stone-600"@ {
        Some(("#57534d"@, "oklch(0.444 0.011 73.639)"@, "hsl(33, 6%, 32%)"@))
    } else if key == "stone-700"@ {
        Some(("#44403b"@, "oklch(0.374 0.01 67.558)"@, "hsl(30, 7%, 25%)"@))
    } else if key == "stone-800"@ {
        Some(("#292524"@, "oklch(0.268 0.007 34.298)"@, "hsl(12, 7%, 15%)"@))
    } else if key == "stone-900"@ {
        Some(("#1c1917"@, "oklch(0.216 0.006 56.043)"@, "hsl(24, 10%, 10%)"@))
    } else if key == "stone-950"@ {
        Some(("#0c0a09"@, "oklch(0.147 0.004 49.25)"@, "hsl(20, 14%, 4%)"@))
    } else {
        None
    }
}

pub open spec fn opt_triple_view(r: Option<(&str, &str, &str)>) -> Option<(Seq<char>, Seq<char>, Seq<char>)> {
    match r {
        Some((a, b, c)) => Some((a@, b@, c@)),
        None => None,
    }
}

/// The hex, OKLCH and HSL values of a palette color.
fn color_entry_of(key: &str) -> (r: Option<(&'static str, &'static str, &'static str)>)
    ensures
        opt_triple_view(r) == color_entry(key@),
{
    if str_eq(key, "black") {
        Some(("#000000", "oklch(0 0 0)", "hsl(0, 0%, 0%)"))
    } else if str_eq(key, "white") {
        Some(("#ffffff", "oklch(1 0 0)", "hsl(0, 0%, 100%)"))
    } else if str_eq(key, "red-50") {
        Some(("#fef2f2", "oklch(0.971 0.013 17.38)", "hsl(0, 88%, 97%)"))
    } else if str_eq(key, "red-100") {
        Some(("#ffe2e2", "oklch(0.936 0.032 17.717)", "hsl(0, 99%, 94%)"))
    } else if str_eq(key, "red-200") {
        Some(("#ffc9c9", "oklch(0.885 0.062 18.334)", "hsl(0, 100%, 89%)"))
    } else if str_eq(key, "red-300") {
        Some(("#ffa2a2", "oklch(0.808 0.114 19.571)", "hsl(0, 100%, 82%)"))
    } else if str_eq(key, "red-400") {
        Some(("#ff6467", "oklch(0.704 0.191 22.216)", "hsl(359, 100%, 70%)"))
    } else if str_eq(key, "red-500") {
        Some(("#fb2c36", "oklch(0.637 0.237 25.331)", "hsl(357, 96%, 58%)"))
    } else if str_eq(key, "red-600") {
        Some(("#e7000b", "oklch(0.577 0.245 27.325)", "hsl(357, 100%, 45%)"))
    } else if str_eq(key, "red-700") {
        Some(("#c10007", "oklch(0.505 0.213 27.518)", "hsl(358, 100%, 38%)"))
    } else if str_eq(key, "red-800") {
        Some(("#9f0712", "oklch(0.444 0.177 26.899)", "hsl(356, 91%, 33%)"))
    } else if str_eq(key, "red-900") {
        Some(("#82181a", "oklch(0.396 0.141 25.723)", "hsl(359, 69%, 30%)"))
    } else if str_eq(key, "red-950") {
        Some(("#460809", "oklch(0.258 0.092 26.042)", "hsl(359, 79%, 15%)"))
    } else if str_eq(key, "orange-50") {
        Some(("#fff7ed", "oklch(0.98 0.016 73.684)", "hsl(34, 100%, 96%)"))
    } else if str_eq(key, "orange-100") {
        Some(("#ffedd4", "oklch(0.954 0.038 75.164)", "hsl(35, 100%, 92%)"))
    } else if str_eq(key, "orange-200") {
        Some(("#ffd6a7", "oklch(0.901 0.076 70.697)", "hsl(32, 100%, 83%)"))
    } else if str_eq(key, "orange-300") {
        Some(("#ffb86a", "oklch(0.837 0.128 66.29)", "hsl(32, 100%, 71%)"))
    } else if str_eq(key, "orange-400") {
        Some(("#ff8904", "oklch(0.75 0.183 55.934)", "hsl(32, 100%, 51%)"))
    } else if str_eq(key, "orange-500") {
        Some(("#ff6900", "oklch(0.705 0.213 47.604)", "hsl(25, 100%, 50%)"))
    } else if str_eq(key, "orange-600") {
        Some(("#f54900", "oklch(0.646 0.222 41.116)", "hsl(18, 100%, 48%)"))
    } else if str_eq(key, "orange-700") {
        Some(("#ca3500", "oklch(0.553 0.195 38.402)", "hsl(16, 100%, 40%)"))
    } else if str_eq(key, "orange-800") {
        Some(("#9f2d00", "oklch(0.47 0.157 37.304)", "hsl(17, 100%, 31%)"))
    } else if str_eq(key, "orange-900") {
        Some(("#7e2a0c", "oklch(0.408 0.123 38.172)", "hsl(16, 83%, 27%)"))
    } else if str_eq(key, "orange-950") {
        Some(("#441306", "oklch(0.266 0.079 36.259)", "hsl(13, 85%, 14%)"))
    } else if str_eq(key, "amber-50") {
        Some(("#fffbeb", "oklch(0.987 0.022 95.277)", "hsl(48, 100%, 96%)"))
    } else if str_eq(key, "amber-100") {
        Some(("#fef3c6", "oklch(0.962 0.059 95.617)", "hsl(48, 97%, 89%)"))
    } else if str_eq(key, "amber-200") {
        Some(("#fee685", "oklch(0.924 0.12 95.746)", "hsl(48, 98%, 76%)"))
    } else if str_eq(key, "amber-300") {
        Some(("#ffd230", "oklch(0.879 0.169 91.605)", "hsl(47, 100%, 59%)"))
    } else if str_eq(key, "amber-400") {
        Some(("#ffb900", "oklch(0.828 0.189 84.429)", "hsl(44, 100%, 50%)"))
    } else if str_eq(key, "amber-500") {
        Some(("#fe9a00", "oklch(0.769 0.188 70.08)", "hsl(36, 100%, 50%)"))
    } else if str_eq(key, "amber-600") {
        Some(("#e17100", "oklch(0.666 0.179 58.318)", "hsl(30, 100%, 44%)"))
    } else if str_eq(key, "amber-700") {
        Some(("#bb4d00", "oklch(0.555 0.163 48.998)", "hsl(25, 100%, 37%)"))
    } else if str_eq(key, "amber-800") {
        Some(("#973c00", "oklch(0.473 0.137 46.201)", "hsl(24, 100%, 30%)"))
    } else if str_eq(key, "amber-900") {
        Some(("#7b3306", "oklch(0.414 0.112 45.904)", "hsl(23, 90%, 25%)"))
    } else if str_eq(key, "amber-950") {
        Some(("#461901", "oklch(0.279 0.077 45.635)", "hsl(21, 97%, 14%)"))
    } else if str_eq(key, "yellow-50") {
        Some(("#fefce8", "oklch(0.987 0.026 102.212)", "hsl(55, 91%, 95%)"))
    } else if str_eq(key, "yellow-100") {
        Some(("#fef9c2", "oklch(0.973 0.071 103.193)", "hsl(55, 98%, 88%)"))
    } else if str_eq(key, "yellow-200") {
        Some(("#fff085", "oklch(0.945 0.129 101.54)", "hsl(53, 99%, 76%)"))
    } else if str_eq(key, "yellow-300") {
        Some(("#ffdf20", "oklch(0.905 0.182 98.111)", "hsl(52, 100%, 56%)"))
    } else if str_eq(key, "yellow-400") {
        Some(("#fdc700", "oklch(0.852 0.199 91.936)", "hsl(47, 100%, 50%)"))
    } else if str_eq(key, "yellow-500") {
        Some(("#f0b100", "oklch(0.795 0.184 86.047)", "hsl(44, 100%, 47%)"))
    } else if str_eq(key, "yellow-600") {
        Some(("#d08700", "oklch(0.681 0.162 75.834)", "hsl(39, 100%, 41%)"))
    } else if str_eq(key, "yellow-700") {
        Some(("#a65f00", "oklch(0.554 0.135 66.442)", "hsl(34, 100%, 33%)"))
    } else if str_eq(key, "yellow-800") {
        Some(("#894b00", "oklch(0.476 0.114 61.907)", "hsl(33, 100%, 27%)"))
    } else if str_eq(key, "yellow-900") {
        Some(("#733e0a", "oklch(0.421 0.095 57.708)", "hsl(30, 83%, 25%)"))
    } else if str_eq(key, "yellow-950") {
        Some(("#432004", "oklch(0.286 0.066 53.813)", "hsl(26, 88%, 14%)"))
    } else if str_eq(key, "lime-50") {
        Some(("#f7fee7", "oklch(0.986 0.031 120.757)", "hsl(78, 93%, 95%)"))
    } else if str_eq(key, "lime-100") {
        Some(("#ecfcca", "oklch(0.967 0.067 122.328)", "hsl(80, 90%, 89%)"))
    } else if str_eq(key, "lime-200") {
        Some(("#d8f999", "oklch(0.938 0.127 124.321)", "hsl(81, 90%, 79%)"))
    } else if str_eq(key, "lime-300") {
        Some(("#bbf451", "oklch(0.897 0.196 126.665)", "hsl(81, 88%, 64%)"))
    } else if str_eq(key, "lime-400") {
        Some(("#9ae600", "oklch(0.841 0.238 128.85)", "hsl(80, 100%, 45%)"))
    } else if str_eq(key, "lime-500") {
        Some(("#7ccf00", "oklch(0.768 0.233 130.85)", "hsl(84, 100%, 40%)"))
    } else if str_eq(key, "lime-600") {
        Some(("#5ea500", "oklch(0.648 0.2 131.684)", "hsl(86, 100%, 32%)"))
    } else if str_eq(key, "lime-700") {
        Some(("#497d00", "oklch(0.532 0.157 131.589)", "hsl(85, 100%, 25%)"))
    } else if str_eq(key, "lime-800") {
        Some(("#3c6300", "oklch(0.453 0.124 130.933)", "hsl(83, 100%, 19%)"))
    } else if str_eq(key, "lime-900") {
        Some(("#35530e", "oklch(0.405 0.101 131.063)", "hsl(87, 71%, 19%)"))
    } else if str_eq(key, "lime-950") {
        Some(("#192e03", "oklch(0.274 0.072 132.109)", "hsl(89, 89%, 10%)"))
    } else if str_eq(key, "green-50") {
        Some(("#f0fdf4", "oklch(0.982 0.018 155.826)", "hsl(138, 77%, 97%)"))
    } else if str_eq(key, "green-100") {
        Some(("#dcfce7", "oklch(0.962 0.044 156.743)", "hsl(141, 84%, 92%)"))
    } else if str_eq(key, "green-200") {
        Some(("#b9f8cf", "oklch(0.925 0.084 155.995)", "hsl(141, 81%, 85%)"))
    } else if str_eq(key, "green-300") {
        Some(("#7bf1a8", "oklch(0.871 0.15 154.449)", "hsl(143, 81%, 71%)"))
    } else if str_eq(key, "green-400") {
        Some(("#05df72", "oklch(0.792 0.209 151.711)", "hsl(150, 96%, 45%)"))
    } else if str_eq(key, "green-500") {
        Some(("#00c950", "oklch(0.723 0.219 149.579)", "hsl(144, 100%, 39%)"))
    } else if str_eq(key, "green-600") {
        Some(("#00a63e", "oklch(0.627 0.194 149.214)", "hsl(142, 100%, 33%)"))
    } else if str_eq(key, "green-700") {
        Some(("#008236", "oklch(0.527 0.154 150.069)", "hsl(145, 100%, 25%)"))
    } else if str_eq(key, "green-800") {
        Some(("#016630", "oklch(0.448 0.119 151.328)", "hsl(148, 97%, 20%)"))
    } else if str_eq(key, "green-900") {
        Some(("#0d542b", "oklch(0.393 0.095 152.535)", "hsl(146, 73%, 19%)"))
    } else if str_eq(key, "green-950") {
        Some(("#032e15", "oklch(0.266 0.065 152.934)", "hsl(145, 88%, 10%)"))
    } else if str_eq(key, "emerald-50") {
        Some(("#ecfdf5", "oklch(0.979 0.021 166.113)", "hsl(152, 81%, 96%)"))
    } else if str_eq(key, "emerald-100") {
        Some(("#d0fae5", "oklch(0.95 0.052 163.051)", "hsl(149, 81%, 90%)"))
    } else if str_eq(key, "emerald-200") {
        Some(("#a4f4cf", "oklch(0.905 0.093 164.15)", "hsl(153, 78%, 80%)"))
    } else if str_eq(key, "emerald-300") {
        Some(("#5ee9b5", "oklch(0.845 0.143 164.978)", "hsl(157, 76%, 64%)"))
    } else if str_eq(key, "emerald-400") {
        Some(("#00d492", "oklch(0.765 0.177 163.223)", "hsl(161, 100%, 42%)"))
    } else if str_eq(key, "emerald-500") {
        Some(("#00bc7d", "oklch(0.696 0.17 162.48)", "hsl(160, 100%, 37%)"))
    } else if str_eq(key, "emerald-600") {
        Some(("#009966", "oklch(0.596 0.145 163.225)", "hsl(160, 100%, 30%)"))
    } else if str_eq(key, "emerald-700") {
        Some(("#007a55", "oklch(0.508 0.118 165.612)", "hsl(162, 100%, 24%)"))
    } else if str_eq(key, "emerald-800") {
        Some(("#006045", "oklch(0.432 0.095 166.913)", "hsl(163, 100%, 19%)"))
    } else if str_eq(key, "emerald-900") {
        Some(("#004f3b", "oklch(0.378 0.077 168.94)", "hsl(165, 100%, 15%)"))
    } else if str_eq(key, "emerald-950") {
        Some(("#002c22", "oklch(0.262 0.051 172.552)", "hsl(166, 100%, 9%)"))
    } else if str_eq(key, "teal-50") {
        Some(("#f0fdfa", "oklch(0.984 0.014 180.72)", "hsl(166, 77%, 97%)"))
    } else if str_eq(key, "teal-100") {
        Some(("#cbfbf1", "oklch(0.953 0.051 180.801)", "hsl(167, 87%, 89%)"))
    } else if str_eq(key, "teal-200") {
        Some(("#96f7e4", "oklch(0.91 0.096 180.426)", "hsl(169, 85%, 78%)"))
    } else if str_eq(key, "teal-300") {
        Some(("#46ecd5", "oklch(0.855 0.138 181.071)", "hsl(171, 82%, 60%)"))
    } else if str_eq(key, "teal-400") {
        Some(("#00d5be", "oklch(0.777 0.152 181.912)", "hsl(173, 100%, 42%)"))
    } else if str_eq(key, "teal-500") {
        Some(("#00bba7", "oklch(0.704 0.14 182.503)", "hsl(174, 100%, 37%)"))
    } else if str_eq(key, "teal-600") {
        Some(("#009689", "oklch(0.6 0.118 184.704)", "hsl(175, 100%, 29%)"))
    } else if str_eq(key, "teal-700") {
        Some(("#00786f", "oklch(0.511 0.096 186.391)", "hsl(176, 100%, 23%)"))
    } else if str_eq(key, "teal-800") {
        Some(("#005f5a", "oklch(0.437 0.078 188.216)", "hsl(177, 100%, 19%)"))
    } else if str_eq(key, "teal-900") {
        Some(("#0b4f4a", "oklch(0.386 0.063 188.416)", "hsl(176, 76%, 18%)"))
    } else if str_eq(key, "teal-950") {
        Some(("#022f2e", "oklch(0.277 0.046 192.524)", "hsl(179, 92%, 10%)"))
    } else if str_eq(key, "cyan-50") {
        Some(("#ecfeff", "oklch(0.984 0.019 200.873)", "hsl(183, 100%, 96%)"))
    } else if str_eq(key, "cyan-100") {
        Some(("#cefafe", "oklch(0.956 0.045 203.388)", "hsl(185, 96%, 90%)"))
    } else if str_eq(key, "cyan-200") {
        Some(("#a2f4fd", "oklch(0.917 0.08 205.041)", "hsl(186, 96%, 81%)"))
    } else if str_eq(key, "cyan-300") {
        Some(("#53eafd", "oklch(0.865 0.127 207.078)", "hsl(187, 97%, 66%)"))
    } else if str_eq(key, "cyan-400") {
        Some(("#00d3f2", "oklch(0.789 0.154 211.53)", "hsl(188, 100%, 48%)"))
    } else if str_eq(key, "cyan-500") {
        Some(("#00b8db", "oklch(0.715 0.143 215.221)", "hsl(189, 100%, 43%)"))
    } else if str_eq(key, "cyan-600") {
        Some(("#0092b8", "oklch(0.609 0.126 221.723)", "hsl(192, 100%, 36%)"))
    } else if str_eq(key, "cyan-700") {
        Some(("#007595", "oklch(0.52 0.105 223.128)", "hsl(193, 100%, 29%)"))
    } else if str_eq(key, "cyan-800") {
        Some(("#005f78", "oklch(0.45 0.085 224.283)", "hsl(193, 100%, 24%)"))
    } else if str_eq(key, "cyan-900") {
        Some(("#104e64", "oklch(0.398 0.07 227.392)", "hsl(196, 72%, 23%)"))
    } else if str_eq(key, "cyan-950") {
        Some(("#053345", "oklch(0.302 0.056 229.695)", "hsl(197, 85%, 15%)"))
    } else if str_eq(key, "sky-50") {
        Some(("#f0f9ff", "oklch(0.977 0.013 236.62)", "hsl(203, 100%, 97%)"))
    } else if str_eq(key, "sky-100") {
        Some(("#dff2fe", "oklch(0.951 0.026 236.824)", "hsl(204, 97%, 94%)"))
    } else if str_eq(key, "sky-200") {
        Some(("#b8e6fe", "oklch(0.901 0.058 230.902)", "hsl(201, 98%, 86%)"))
    } else if str_eq(key, "sky-300") {
        Some(("#74d4ff", "oklch(0.828 0.111 230.318)", "hsl(198, 100%, 73%)"))
    } else if str_eq(key, "sky-400") {
        Some(("#00bcff", "oklch(0.746 0.16 232.661)", "hsl(196, 100%, 50%)"))
    } else if str_eq(key, "sky-500") {
        Some(("#00a6f4", "oklch(0.685 0.169 237.323)", "hsl(199, 100%, 48%)"))
    } else if str_eq(key, "sky-600") {
        Some(("#0084d1", "oklch(0.588 0.158 241.966)", "hsl(202, 100%, 41%)"))
    } else if str_eq(key, "sky-700") {
        Some(("#0069a8", "oklch(0.5 0.134 242.749)", "hsl(203, 100%, 33%)"))
    } else if str_eq(key, "sky-800") {
        Some(("#00598a", "oklch(0.443 0.11 240.79)", "hsl(201, 100%, 27%)"))
    } else if str_eq(key, "sky-900") {
        Some(("#024a70", "oklch(0.391 0.09 240.876)", "hsl(201, 97%, 22%)"))
    } else if str_eq(key, "sky-950") {
        Some(("#052f4a", "oklch(0.293 0.066 243.157)", "hsl(204, 87%, 16%)"))
    } else if str_eq(key, "blue-50") {
        Some(("#eff6ff", "oklch(0.97 0.014 254.604)", "hsl(214, 96%, 97%)"))
    } else if str_eq(key, "blue-100") {
        Some(("#dbeafe", "oklch(0.932 0.032 255.585)", "hsl(214, 96%, 93%)"))
    } else if str_eq(key, "blue-200") {
        Some(("#bedbff", "oklch(0.882 0.059 254.128)", "hsl(213, 100%, 87%)"))
    } else if str_eq(key, "blue-300") {
        Some(("#8ec5ff", "oklch(0.809 0.105 251.813)", "hsl(211, 100%, 78%)"))
    } else if str_eq(key, "blue-400") {
        Some(("#51a2ff", "oklch(0.707 0.165 254.624)", "hsl(212, 100%, 66%)"))
    } else if str_eq(key, "blue-500") {
        Some(("#2b7fff", "oklch(0.623 0.214 259.815)", "hsl(216, 100%, 58%)"))
    } else if str_eq(key, "blue-600") {
        Some(("#155dfc", "oklch(0.546 0.245 262.881)", "hsl(221, 97%, 53%)"))
    } else if str_eq(key, "blue-700") {
        Some(("#1447e6", "oklch(0.488 0.243 264.376)", "hsl(225, 84%, 49%)"))
    } else if str_eq(key, "blue-800") {
        Some(("#193cb8", "oklch(0.424 0.199 265.638)", "hsl(227, 76%, 41%)"))
    } else if str_eq(key, "blue-900") {
        Some(("#1c398e", "oklch(0.379 0.146 265.522)", "hsl(225, 67%, 33%)"))
    } else if str_eq(key, "blue-950") {
        Some(("#162456", "oklch(0.282 0.091 267.935)", "hsl(227, 59%, 21%)"))
    } else if str_eq(key, "indigo-50") {
        Some(("#eef2ff", "oklch(0.962 0.018 272.314)", "hsl(226, 100%, 97%)"))
    } else if str_eq(key, "indigo-100") {
        Some(("#e0e7ff", "oklch(0.93 0.034 272.788)", "hsl(226, 100%, 94%)"))
    } else if str_eq(key, "indigo-200") {
        Some(("#c6d2ff", "oklch(0.87 0.065 274.039)", "hsl(228, 100%, 89%)"))
    } else if str_eq(key, "indigo-300") {
        Some(("#a3b3ff", "oklch(0.785 0.115 274.713)", "hsl(230, 100%, 82%)"))
    } else if str_eq(key, "indigo-400") {
        Some(("#7c86ff", "oklch(0.673 0.182 276.935)", "hsl(235, 100%, 74%)"))
    } else if str_eq(key, "indigo-500") {
        Some(("#615fff", "oklch(0.585 0.233 277.117)", "hsl(241, 100%, 69%)"))
    } else if str_eq(key, "indigo-600") {
        Some(("#4f39f6", "oklch(0.511 0.262 276.966)", "hsl(247, 92%, 60%)"))
    } else if str_eq(key, "indigo-700") {
        Some(("#432dd7", "oklch(0.457 0.24 277.023)", "hsl(248, 68%, 51%)"))
    } else if str_eq(key, "indigo-800") {
        Some(("#372aac", "oklch(0.398 0.195 277.366)", "hsl(246, 61%, 42%)"))
    } else if str_eq(key, "indigo-900") {
        Some(("#312c85", "oklch(0.359 0.144 278.697)", "hsl(243, 50%, 35%)"))
    } else if str_eq(key, "indigo-950") {
        Some(("#1e1a4d", "oklch(0.257 0.09 281.288)", "hsl(244, 49%, 20%)"))
    } else if str_eq(key, "violet-50") {
        Some(("#f5f3ff", "oklch(0.969 0.016 293.756)", "hsl(250, 99%, 98%)"))
    } else if str_eq(key, "violet-100") {
        Some(("#ede9fe", "oklch(0.943 0.029 294.588)", "hsl(251, 93%, 96%)"))
    } else if str_eq(key, "violet-200") {
        Some(("#ddd6ff", "oklch(0.894 0.057 293.283)", "hsl(251, 100%, 92%)"))
    } else if str_eq(key, "violet-300") {
        Some(("#c4b4ff", "oklch(0.811 0.111 293.571)", "hsl(253, 100%, 85%)"))
    } else if str_eq(key, "violet-400") {
        Some(("#a684ff", "oklch(0.702 0.183 293.541)", "hsl(257, 100%, 76%)"))
    } else if str_eq(key, "violet-500") {
        Some(("#8e51ff", "oklch(0.606 0.25 292.717)", "hsl(261, 100%, 66%)"))
    } else if str_eq(key, "violet-600") {
        Some(("#7f22fe", "oklch(0.541 0.281 293.009)", "hsl(265, 99%, 56%)"))
    } else if str_eq(key, "violet-700") {
        Some(("#7008e7", "oklch(0.491 0.27 292.581)", "hsl(268, 93%, 47%)"))
    } else if str_eq(key, "violet-800") {
        Some(("#5d0ec0", "oklch(0.432 0.232 292.759)", "hsl(267, 86%, 40%)"))
    } else if str_eq(key, "violet-900") {
        Some(("#4d179a", "oklch(0.38 0.189 293.745)", "hsl(265, 74%, 35%)"))
    } else if str_eq(key, "violet-950") {
        Some(("#2f0d68", "oklch(0.283 0.141 291.089)", "hsl(262, 78%, 23%)"))
    } else if str_eq(key, "purple-50") {
        Some(("#faf5ff", "oklch(0.977 0.014 308.299)", "hsl(270, 99%, 98%)"))
    } else if str_eq(key, "purple-100") {
        Some(("#f3e8ff", "oklch(0.946 0.033 307.174)", "hsl(269, 100%, 95%)"))
    } else if str_eq(key, "purple-200") {
        Some(("#e9d4ff", "oklch(0.902 0.063 306.703)", "hsl(269, 100%, 92%)"))
    } else if str_eq(key, "purple-300") {
        Some(("#dab2ff", "oklch(0.827 0.119 306.383)", "hsl(271, 100%, 85%)"))
    } else if str_eq(key, "purple-400") {
        Some(("#c27aff", "oklch(0.714 0.203 305.504)", "hsl(272, 100%, 74%)"))
    } else if str_eq(key, "purple-500") {
        Some(("#ad46ff", "oklch(0.627 0.265 303.9)", "hsl(273, 100%, 64%)"))
    } else if str_eq(key, "purple-600") {
        Some(("#9810fa", "oklch(0.558 0.288 302.321)", "hsl(275, 96%, 52%)"))
    } else if str_eq(key, "purple-700") {
        Some(("#8200db", "oklch(0.496 0.265 301.924)", "hsl(276, 100%, 43%)"))
    } else if str_eq(key, "purple-800") {
        Some(("#6e11b0", "oklch(0.438 0.218 303.724)", "hsl(275, 82%, 38%)"))
    } else if str_eq(key, "purple-900") {
        Some(("#59168b", "oklch(0.381 0.176 304.987)", "hsl(275, 72%, 32%)"))
    } else if str_eq(key, "purple-950") {
        Some(("#3c0366", "oklch(0.291 0.149 302.717)", "hsl(274, 94%, 21%)"))
    } else if str_eq(key, "fuchsia-50") {
        Some(("#fdf4ff", "oklch(0.977 0.017 320.058)", "hsl(289, 96%, 98%)"))
    } else if str_eq(key, "fuchsia-100") {
        Some(("#fae8ff", "oklch(0.952 0.037 318.852)", "hsl(288, 100%, 95%)"))
    } else if str_eq(key, "fuchsia-200") {
        Some(("#f6cfff", "oklch(0.903 0.076 319.62)", "hsl(288, 100%, 91%)"))
    } else if str_eq(key, "fuchsia-300") {
        Some(("#f4a8ff", "oklch(0.833 0.145 321.434)", "hsl(292, 100%, 83%)"))
    } else if str_eq(key, "fuchsia-400") {
        Some(("#ed6aff", "oklch(0.74 0.238 322.16)", "hsl(293, 100%, 71%)"))
    } else if str_eq(key, "fuchsia-500") {
        Some(("#e12afb", "oklch(0.667 0.295 322.15)", "hsl(293, 96%, 58%)"))
    } else if str_eq(key, "fuchsia-600") {
        Some(("#c800de", "oklch(0.591 0.293 322.896)", "hsl(294, 100%, 44%)"))
    } else if str_eq(key, "fuchsia-700") {
        Some(("#a800b7", "oklch(0.518 0.253 323.949)", "hsl(295, 100%, 36%)"))
    } else if str_eq(key, "fuchsia-800") {
        Some(("#8a0194", "oklch(0.452 0.211 324.591)", "hsl(296, 98%, 29%)"))
    } else if str_eq(key, "fuchsia-900") {
        Some(("#721378", "oklch(0.401 0.17 325.612)", "hsl(297, 72%, 27%)"))
    } else if str_eq(key, "fuchsia-950") {
        Some(("#4b004f", "oklch(0.293 0.136 325.661)", "hsl(297, 99%, 16%)"))
    } else if str_eq(key, "pink-50") {
        Some(("#fdf2f8", "oklch(0.971 0.014 343.198)", "hsl(327, 71%, 97%)"))
    } else if str_eq(key, "pink-100") {
        Some(("#fce7f3", "oklch(0.948 0.028 342.258)", "hsl(326, 79%, 95%)"))
    } else if str_eq(key, "pink-200") {
        Some(("#fccee8", "oklch(0.899 0.061 343.231)", "hsl(326, 88%, 90%)"))
    } else if str_eq(key, "pink-300") {
        Some(("#fda5d5", "oklch(0.823 0.12 346.018)", "hsl(327, 97%, 82%)"))
    } else if str_eq(key, "pink-400") {
        Some(("#fb64b6", "oklch(0.718 0.202 349.761)", "hsl(327, 95%, 69%)"))
    } else if str_eq(key, "pink-500") {
        Some(("#f6339a", "oklch(0.656 0.241 354.308)", "hsl(328, 92%, 58%)"))
    } else if str_eq(key, "pink-600") {
        Some(("#e60076", "oklch(0.592 0.249 0.584)", "hsl(329, 100%, 45%)"))
    } else if str_eq(key, "pink-700") {
        Some(("#c6005c", "oklch(0.525 0.223 3.958)", "hsl(332, 100%, 39%)"))
    } else if str_eq(key, "pink-800") {
        Some(("#a3004c", "oklch(0.459 0.187 3.815)", "hsl(332, 100%, 32%)"))
    } else if str_eq(key, "pink-900") {
        Some(("#861043", "oklch(0.408 0.153 2.432)", "hsl(334, 78%, 29%)"))
    } else if str_eq(key, "pink-950") {
        Some(("#510424", "oklch(0.284 0.109 3.907)", "hsl(335, 91%, 17%)"))
    } else if str_eq(key, "rose-50") {
        Some(("#fff1f2", "oklch(0.969 0.015 12.422)", "hsl(356, 97%, 97%)"))
    } else if str_eq(key, "rose-100") {
        Some(("#ffe4e6", "oklch(0.941 0.03 12.58)", "hsl(356, 100%, 95%)"))
    } else if str_eq(key, "rose-200") {
        Some(("#ffccd3", "oklch(0.892 0.058 10.001)", "hsl(353, 100%, 90%)"))
    } else if str_eq(key, "rose-300") {
        Some(("#ffa1ad", "oklch(0.81 0.117 11.638)", "hsl(352, 100%, 81%)"))
    } else if str_eq(key, "rose-400") {
        Some(("#ff637e", "oklch(0.712 0.194 13.428)", "hsl(350, 100%, 69%)"))
    } else if str_eq(key, "rose-500") {
        Some(("#ff2056", "oklch(0.645 0.246 16.439)", "hsl(345, 100%, 56%)"))
    } else if str_eq(key, "rose-600") {
        Some(("#ec003f", "oklch(0.586 0.253 17.585)", "hsl(344, 100%, 46%)"))
    } else if str_eq(key, "rose-700") {
        Some(("#c70036", "oklch(0.514 0.222 16.935)", "hsl(344, 100%, 39%)"))
    } else if str_eq(key, "rose-800") {
        Some(("#a50036", "oklch(0.455 0.188 13.697)", "hsl(340, 100%, 32%)"))
    } else if str_eq(key, "rose-900") {
        Some(("#8b0836", "oklch(0.41 0.159 10.272)", "hsl(339, 90%, 29%)"))
    } else if str_eq(key, "rose-950") {
        Some(("#4d0218", "oklch(0.271 0.105 12.094)", "hsl(342, 94%, 16%)"))
    } else if str_eq(key, "slate-50") {
        Some(("#f8fafc", "oklch(0.984 0.003 247.858)", "hsl(210, 35%, 98%)"))
    } else if str_eq(key, "slate-100") {
        Some(("#f1f5f9", "oklch(0.968 0.007 247.896)", "hsl(210, 41%, 96%)"))
    } else if str_eq(key, "slate-200") {
        Some(("#e2e8f0", "oklch(0.929 0.013 255.508)", "hsl(214, 33%, 91%)"))
    } else if str_eq(key, "slate-300") {
        Some(("#cad5e2", "oklch(0.869 0.022 252.894)", "hsl(213, 30%, 84%)"))
    } else if str_eq(key, "slate-400") {
        Some(("#90a1b9", "oklch(0.704 0.04 256.788)", "hsl(215, 23%, 65%)"))
    } else if str_eq(key, "slate-500") {
        Some(("#62748e", "oklch(0.554 0.046 257.417)", "hsl(215, 18%, 47%)"))
    } else if str_eq(key, "slate-600") {
        Some(("#45556c", "oklch(0.446 0.043 257.281)", "hsl(215, 22%, 35%)"))
    } else if str_eq(key, "slate-700") {
        Some(("#314158", "oklch(0.372 0.044 257.287)", "hsl(215, 28%, 27%)"))
    } else if str_eq(key, "slate-800") {
        Some(("#1d293d", "oklch(0.279 0.041 260.031)", "hsl(217, 36%, 18%)"))
    } else if str_eq(key, "slate-900") {
        Some(("#0f172b", "oklch(0.208 0.042 265.755)", "hsl(222, 49%, 11%)"))
    } else if str_eq(key, "slate-950") {
        Some(("#020618", "oklch(0.129 0.042 264.695)", "hsl(229, 85%, 5%)"))
    } else if str_eq(key, "gray-50") {
        Some(("#f9fafb", "oklch(0.985 0.002 247.839)", "hsl(210, 24%, 98%)"))
    } else if str_eq(key, "gray-100") {
        Some(("#f3f4f6", "oklch(0.967 0.003 264.542)", "hsl(220, 15%, 96%)"))
    } else if str_eq(key, "gray-200") {
        Some(("#e5e7eb", "oklch(0.928 0.006 264.531)", "hsl(220, 14%, 91%)"))
    } else if str_eq(key, "gray-300") {
        Some(("#d1d5dc", "oklch(0.872 0.01 258.338)", "hsl(216, 13%, 84%)"))
    } else if str_eq(key, "gray-400") {
        Some(("#99a1af", "oklch(0.707 0.022 261.325)", "hsl(218, 12%, 64%)"))
    } else if str_eq(key, "gray-500") {
        Some(("#6a7282", "oklch(0.551 0.027 264.364)", "hsl(220, 10%, 46%)"))
    } else if str_eq(key, "gray-600") {
        Some(("#4a5565", "oklch(0.446 0.03 256.802)", "hsl(215, 16%, 34%)"))
    } else if str_eq(key, "gray-700") {
        Some(("#364153", "oklch(0.373 0.034 259.733)", "hsl(217, 21%, 27%)"))
    } else if str_eq(key, "gray-800") {
        Some(("#1e2939", "oklch(0.278 0.033 256.848)", "hsl(215, 31%, 17%)"))
    } else if str_eq(key, "gray-900") {
        Some(("#101828", "oklch(0.21 0.034 264.665)", "hsl(221, 42%, 11%)"))
    } else if str_eq(key, "gray-950") {
        Some(("#030712", "oklch(0.13 0.028 261.692)", "hsl(224, 72%, 4%)"))
    } else if str_eq(key, "zinc-50") {
        Some(("#fafafa", "oklch(0.985 0 0)", "hsl(180, 0%, 98%)"))
    } else if str_eq(key, "zinc-100") {
        Some(("#f4f4f5", "oklch(0.967 0.001 286.375)", "hsl(240, 4%, 96%)"))
    } else if str_eq(key, "zinc-200") {
        Some(("#e4e4e7", "oklch(0.92 0.004 286.32)", "hsl(240, 6%, 90%)"))
    } else if str_eq(key, "zinc-300") {
        Some(("#d4d4d8", "oklch(0.871 0.006 286.286)", "hsl(240, 5%, 84%)"))
    } else if str_eq(key, "zinc-400") {
        Some(("#9f9fa9", "oklch(0.705 0.015 286.067)", "hsl(240, 6%, 64%)"))
    } else if str_eq(key, "zinc-500") {
        Some(("#71717b", "oklch(0.552 0.016 285.938)", "hsl(240, 4%, 46%)"))
    } else if str_eq(key, "zinc-600") {
        Some(("#52525c", "oklch(0.442 0.017 285.786)", "hsl(240, 6%, 34%)"))
    } else if str_eq(key, "zinc-700") {
        Some(("#3f3f46", "oklch(0.37 0.013 285.805)", "hsl(240, 6%, 26%)"))
    } else if str_eq(key, "zinc-800") {
        Some(("#27272a", "oklch(0.274 0.006 286.033)", "hsl(240, 4%, 16%)"))
    } else if str_eq(key, "zinc-900") {
        Some(("#18181b", "oklch(0.21 0.006 285.885)", "hsl(240, 6%, 10%)"))
    } else if str_eq(key, "zinc-950") {
        Some(("#09090b", "oklch(0.141 0.005 285.823)", "hsl(240, 11%, 4%)"))
    } else if str_eq(key, "neutral-50") {
        Some(("#fafafa", "oklch(0.985 0 0)", "hsl(180, 0%, 98%)"))
    } else if str_eq(key, "neutral-100") {
        Some(("#f5f5f5", "oklch(0.97 0 0)", "hsl(120, 0%, 96%)"))
    } else if str_eq(key, "neutral-200") {
        Some(("#e5e5e5", "oklch(0.922 0 0)", "hsl(240, 0%, 90%)"))
    } else if str_eq(key, "neutral-300") {
        Some(("#d4d4d4", "oklch(0.87 0 0)", "hsl(0, 0%, 83%)"))
    } else if str_eq(key, "neutral-400") {
        Some(("#a1a1a1", "oklch(0.708 0 0)", "hsl(0, 0%, 63%)"))
    } else if str_eq(key, "neutral-500") {
        Some(("#737373", "oklch(0.556 0 0)", "hsl(0, 0%, 45%)"))
    } else if str_eq(key, "neutral-600") {
        Some(("#525252", "oklch(0.439 0 0)", "hsl(180, 0%, 32%)"))
    } else if str_eq(key, "neutral-700") {
        Some(("#404040", "oklch(0.371 0 0)", "hsl(240, 0%, 25%)"))
    } else if str_eq(key, "neutral-800") {
        Some(("#262626", "oklch(0.269 0 0)", "hsl(0, 0%, 15%)"))
    } else if str_eq(key, "neutral-900") {
        Some(("#171717", "oklch(0.205 0 0)", "hsl(0, 0%, 9%)"))
    } else if str_eq(key, "neutral-950") {
        Some(("#0a0a0a", "oklch(0.145 0 0)", "hsl(330, 0%, 4%)"))
    } else if str_eq(key, "stone-50") {
        Some(("#fafaf9", "oklch(0.985 0.001 106.423)", "hsl(60, 7%, 98%)"))
    } else if str_eq(key, "stone-100") {
        Some(("#f5f5f4", "oklch(0.97 0.001 106.424)", "hsl(60, 4%, 96%)"))
    } else if str_eq(key, "stone-200") {
        Some(("#e7e5e4", "oklch(0.923 0.003 48.717)", "hsl(20, 7%, 90%)"))
    } else if str_eq(key, "stone-300") {
        Some(("#d6d3d1", "oklch(0.869 0.005 56.366)", "hsl(24, 7%, 83%)"))
    } else if str_eq(key, "stone-400") {
        Some(("#a6a09b", "oklch(0.709 0.01 56.259)", "hsl(24, 6%, 63%)"))
    } else if str_eq(key, "stone-500") {
        Some(("#79716b", "oklch(0.553 0.013 58.071)", "hsl(25, 6%, 45%)"))
    } else if str_eq(key, "stone-600") {
        Some(("#57534d", "oklch(0.444 0.011 73.639)", "hsl(33, 6%, 32%)"))
    } else if str_eq(key, "stone-700") {
        Some(("#44403b", "oklch(0.374 0.01 67.558)", "hsl(30, 7%, 25%)"))
    } else if str_eq(key, "stone-800") {
        Some(("#292524", "oklch(0.268 0.007 34.298)", "hsl(12, 7%, 15%)"))
    } else if str_eq(key, "stone-900") {
        Some(("#1c1917", "oklch(0.216 0.006 56.043)", "hsl(24, 10%, 10%)"))
    } else if str_eq(key, "stone-950") {
        Some(("#0c0a09", "oklch(0.147 0.004 49.25)", "hsl(20, 14%, 4%)"))
    } else {
        None
    }
}

/// The value of a palette color in the given mode: `transparent` and
/// `current` are keywords; other colors are written in hex, OKLCH, HSL, or as
/// `var(--color-{name})`.
pub open spec fn palette_color(key: Seq<char>, mode: ColorMode) -> Option<Seq<char>> {
    if key == "transparent"@ {
        Some("transparent"@)
    } else if key == "current"@ {
        Some("currentColor"@)
    } else {
        match color_entry(key) {
            Some((h, o, s)) => Some(
                match mode {
                    ColorMode::Hex => h,
                    ColorMode::Oklch => o,
                    ColorMode::Hsl => s,
                    ColorMode::Var => "var(--color-"@ + key + ")"@,
                },
            ),
            None => None,
        }
    }
}

/// The value of a palette color in the given mode.
pub fn get_color(key: &str, mode: ColorMode) -> (r: Option<String>)
    ensures
        match r {
            Some(v) => palette_color(key@, mode) == Some(v@),
            None => palette_color(key@, mode) is None,
        },
{
    if str_eq(key, "transparent") {
        return Some(owned("transparent"));
    }
    if str_eq(key, "current") {
        return Some(owned("currentColor"));
    }
    match color_entry_of(key) {
        Some((h, o, s)) => Some(
            match mode {
                ColorMode::Hex => owned(h),
                ColorMode::Oklch => owned(o),
                ColorMode::Hsl => owned(s),
                ColorMode::Var => cat3("var(--color-", key, ")"),
            },
        ),
        None => None,
    }
}

} // verus!
