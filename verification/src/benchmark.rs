//! The C source of the benchmark harness that runs one test case on the
//! board: a fixed frame around the test case's variable declarations.

use vstd::prelude::*;
use crate::format::{decimal, push_decimal, string_views};
use crate::text::{contains_pat, lemma_contains_concat};

verus! {

/// The lines of `vs`, each followed by a line break.
pub open spec fn lines_of(vs: Seq<Seq<char>>) -> Seq<char>
    decreases vs.len(),
{
    if vs.len() == 0 {
        Seq::empty()
    } else {
        lines_of(vs.drop_last()) + vs.last() + seq!['\n']
    }
}

/// Appends each string of `vs` and a line break after it.
pub fn push_lines(s: &mut String, vs: &Vec<String>)
    ensures
        final(s)@ == old(s)@ + lines_of(string_views(vs@)),
{
    let ghost start = s@;
    for i in 0..vs.len()
        invariant
            s@ == start + lines_of(string_views(vs@.take(i as int))),
    {
        s.append(vs[i].as_str());
        proof {
            reveal_strlit("\n");
            assert("\n"@ =~= seq!['\n']);
        }
        s.append("\n");
        proof {
            let t = string_views(vs@.take(i + 1));
            assert(t.drop_last() =~= string_views(vs@.take(i as int)));
            assert(t.last() == vs@[i as int]@);
            assert(s@ =~= start + lines_of(t));
        }
    }
    proof {
        assert(vs@.take(vs.len() as int) =~= vs@);
        assert(string_views(vs@.take(vs.len() as int)) =~= string_views(vs@));
    }
}

/// The harness that the generators of the `generators` modules write:
/// `runs` timed calls of `functioncall`, then the counters and the result.
pub open spec fn harness_text(runs: nat, variables: Seq<Seq<char>>, functioncall: Seq<char>, resultprint: Seq<char>) -> Seq<char> {
    "#include \"benchmark.h\"
    extern void icachemisses();
    "@ + "static int runs="@ + decimal(runs) + ";"@ + "

    void printresult(unsigned char *in, int inlen){
        for(int i =0;i<inlen;i++){
            printf(\"%02x\", in[i]);
        }
        printf(\"\\n\");
    }

    void printresultreverse(unsigned char *in, int inlen){
        for(int i =inlen-1;i>=0;i--){
            printf(\"%02x\", in[i]);
        }
        printf(\"\\n\");
    }


    void printintarray(unsigned int *in, int inlen){
        for(int i =0;i<inlen;i++){
            printf(\"0x%02x, \", in[i]);
        }
        printf(\"\\n\");
    }

    void printchararray(unsigned char *in, int inlen){
        for(int i =0;i<inlen;i++){
            printf(\"0x%02x, \", in[i]);
        }
        printf(\"\\n\");
    }

    void printcounters(unsigned int *a, int initialoffset){

           "@ + "for(int i = initialoffset+3; i < runs*3;i+=3){
               printf(\"%6u, \", a[i]-a[i-3]);"@ + "
        }
        printf(\"\\n\");
    }

    void dobenchmark() {

    \n"@ + lines_of(variables) + "

        unsigned int counters[3*runs];
        icachemisses();

        uint32_t timings[21];
        "@ + "for(int i =0;i<runs;i++){\n            getcycles(&counters[i*3]);"@ + "
            "@ + functioncall + "
        }

        "@ + "printf(\"Cycle counts:          \");\n        printcounters(counters, 0);"@ + "

        "@ + "printf(\"Branch mispredictions:        \");\n        printcounters(counters, 1);"@ + "

        "@ + "printf(\"ICache misses:    \");\n        printcounters(counters, 2);"@ + "

        "@ + "printf(\"Result: \");"@ + "
        "@ + resultprint + "
        printf(\"\\n\\n\");

    }\n"@
}

/// Builds the harness around the variables; `runs` is the number of timed
/// calls minus one.
pub fn harness_source(runs: u64, variables: &Vec<String>, functioncall: &str, resultprint: &str) -> (r: String)
    requires
        runs < u64::MAX,
    ensures
        r@ == harness_text((runs + 1) as nat, string_views(variables@), functioncall@, resultprint@),
{
    let mut s = String::new();
    s.append("#include \"benchmark.h\"
    extern void icachemisses();
    ");
    s.append("static int runs=");
    push_decimal(&mut s, runs + 1);
    s.append(";");
    s.append("

    void printresult(unsigned char *in, int inlen){
        for(int i =0;i<inlen;i++){
            printf(\"%02x\", in[i]);
        }
        printf(\"\\n\");
    }

    void printresultreverse(unsigned char *in, int inlen){
        for(int i =inlen-1;i>=0;i--){
            printf(\"%02x\", in[i]);
        }
        printf(\"\\n\");
    }


    void printintarray(unsigned int *in, int inlen){
        for(int i =0;i<inlen;i++){
            printf(\"0x%02x, \", in[i]);
        }
        printf(\"\\n\");
    }

    void printchararray(unsigned char *in, int inlen){
        for(int i =0;i<inlen;i++){
            printf(\"0x%02x, \", in[i]);
        }
        printf(\"\\n\");
    }

    void printcounters(unsigned int *a, int initialoffset){

           ");
    s.append("for(int i = initialoffset+3; i < runs*3;i+=3){
               printf(\"%6u, \", a[i]-a[i-3]);");
    s.append("
        }
        printf(\"\\n\");
    }

    void dobenchmark() {

    \n");
    push_lines(&mut s, variables);
    s.append("

        unsigned int counters[3*runs];
        icachemisses();

        uint32_t timings[21];
        ");
    s.append("for(int i =0;i<runs;i++){\n            getcycles(&counters[i*3]);");
    s.append("
            ");
    s.append(functioncall);
    s.append("
        }

        ");
    s.append("printf(\"Cycle counts:          \");\n        printcounters(counters, 0);");
    s.append("

        ");
    s.append("printf(\"Branch mispredictions:        \");\n        printcounters(counters, 1);");
    s.append("

        ");
    s.append("printf(\"ICache misses:    \");\n        printcounters(counters, 2);");
    s.append("

        ");
    s.append("printf(\"Result: \");");
    s.append("
        ");
    s.append(resultprint);
    s.append("
        printf(\"\\n\\n\");

    }\n");
    s
}

/// The harness for the Karatsuba multiplication of two 130-bit numbers, timed 21 times.
pub open spec fn karatsuba_harness_text(variables: Seq<Seq<char>>) -> Seq<char> {
    "#include \"benchmark.h\"

    void printarrayinv(unsigned int *in, int inlen){
        for(int i =inlen-1;i>=0;i--){
            printf(\"%02x\", in[i]);
        }
        printf(\"\\n\");
    }

 void convert_to_radix226(unsigned int* r, unsigned char *k){
        r[0] = k[0] + (k[1] << 8) + (k[2] << 16) + ((k[3] & 3) << 24);
        r[1] = ((k[3] >> 2) & 3) + ((k[4] & 252) << 6) + (k[5] << 14) +
            ((k[6] & 15) << 22);
        r[2] = (k[6] >> 4) + ((k[7] & 15) << 4) + ((k[8] & 252) << 12) +
            ((k[9] & 63) << 20);
        r[3] =
            (k[9] >> 6) + (k[10] << 2) + ((k[11] & 15) << 10) + ((k[12] & 252) << 18);
        r[4] = k[13] + (k[14] << 8) + ((k[15] & 15) << 16);
    }

 void convert_to_radix226_kara(unsigned int* r, unsigned char *k){
        r[0] = k[0] + (k[1] << 8) + (k[2] << 16) + ((k[3] & 3) << 24);
        r[1] = ((k[3] >> 2)) + ((k[4] ) << 6) + (k[5] << 14) +
            ((k[6] & 15) << 22);
        r[2] = (k[6] >> 4) + ((k[7]) << 4) + ((k[8]) << 12) +
            ((k[9] & 63) << 20);
        r[3] =
            (k[9] >> 6) + (k[10] << 2) + ((k[11] ) << 10) + ((k[12]) << 18);
        r[4] = k[13] + (k[14] << 8) + ((k[15] ) << 16)+(k[16]<<24);
    }

    void printcounters(unsigned int *a, int initialoffset){

           for(int i = initialoffset+3; i < 21*3;i+=3){
               printf(\"%6u, \", a[i]-a[i-3]);
        }
        printf(\"\\n\");
    }

    void dobenchmark() {

        unsigned int a[10];
        unsigned int b[10];
    \n"@ + lines_of(variables) + "

        "@ + "convert_to_radix226_kara(a, a_bytes);\n        convert_to_radix226_kara(b,b_bytes);"@ + "

        printf(\"A: %x, %x, %x, %x, %x, %x, %x, %x, %x, %x\\n\", a[0], a[1], a[2], a[3], a[4], a[5], a[6], a[7], a[8], a[9]);
        printf(\"B: %x, %x, %x, %x, %x, %x, %x, %x, %x, %x\\n\", b[0], b[1], b[2], b[3], b[4], b[5], b[6], b[7], b[8], b[9]);


        unsigned int out[32];
        unsigned int counters[3*21];
        icachemisses();

        "@ + "for(int i =0;i<21;i++){\n            getcycles(&counters[i*3]);\n            karatsuba226asm(out, a,b);"@ + "
        }

        "@ + "printf(\"Cycle counts:          \");\n        printcounters(counters, 0);"@ + "

        printf(\"Branch dir mis:        \");
        printcounters(counters, 1);

        printf(\"Branch target mis:    \");
        printcounters(counters, 2);

        "@ + "toradix28(out);\n        printf(\"Result: \");\n        printarrayinv(out,17);"@ + "
        printf(\"\\n\");
    }\n"@
}

/// Builds the harness for the Karatsuba multiplication of two 130-bit numbers, timed 21 times.
pub fn karatsuba_harness_source(variables: &Vec<String>) -> (r: String)
    ensures
        r@ == karatsuba_harness_text(string_views(variables@)),
{
    let mut s = String::new();
    s.append("#include \"benchmark.h\"

    void printarrayinv(unsigned int *in, int inlen){
        for(int i =inlen-1;i>=0;i--){
            printf(\"%02x\", in[i]);
        }
        printf(\"\\n\");
    }

 void convert_to_radix226(unsigned int* r, unsigned char *k){
        r[0] = k[0] + (k[1] << 8) + (k[2] << 16) + ((k[3] & 3) << 24);
        r[1] = ((k[3] >> 2) & 3) + ((k[4] & 252) << 6) + (k[5] << 14) +
            ((k[6] & 15) << 22);
        r[2] = (k[6] >> 4) + ((k[7] & 15) << 4) + ((k[8] & 252) << 12) +
            ((k[9] & 63) << 20);
        r[3] =
            (k[9] >> 6) + (k[10] << 2) + ((k[11] & 15) << 10) + ((k[12] & 252) << 18);
        r[4] = k[13] + (k[14] << 8) + ((k[15] & 15) << 16);
    }

 void convert_to_radix226_kara(unsigned int* r, unsigned char *k){
        r[0] = k[0] + (k[1] << 8) + (k[2] << 16) + ((k[3] & 3) << 24);
        r[1] = ((k[3] >> 2)) + ((k[4] ) << 6) + (k[5] << 14) +
            ((k[6] & 15) << 22);
        r[2] = (k[6] >> 4) + ((k[7]) << 4) + ((k[8]) << 12) +
            ((k[9] & 63) << 20);
        r[3] =
            (k[9] >> 6) + (k[10] << 2) + ((k[11] ) << 10) + ((k[12]) << 18);
        r[4] = k[13] + (k[14] << 8) + ((k[15] ) << 16)+(k[16]<<24);
    }

    void printcounters(unsigned int *a, int initialoffset){

           for(int i = initialoffset+3; i < 21*3;i+=3){
               printf(\"%6u, \", a[i]-a[i-3]);
        }
        printf(\"\\n\");
    }

    void dobenchmark() {

        unsigned int a[10];
        unsigned int b[10];
    \n");
    push_lines(&mut s, variables);
    s.append("

        ");
    s.append("convert_to_radix226_kara(a, a_bytes);\n        convert_to_radix226_kara(b,b_bytes);");
    s.append("

        printf(\"A: %x, %x, %x, %x, %x, %x, %x, %x, %x, %x\\n\", a[0], a[1], a[2], a[3], a[4], a[5], a[6], a[7], a[8], a[9]);
        printf(\"B: %x, %x, %x, %x, %x, %x, %x, %x, %x, %x\\n\", b[0], b[1], b[2], b[3], b[4], b[5], b[6], b[7], b[8], b[9]);


        unsigned int out[32];
        unsigned int counters[3*21];
        icachemisses();

        ");
    s.append("for(int i =0;i<21;i++){\n            getcycles(&counters[i*3]);\n            karatsuba226asm(out, a,b);");
    s.append("
        }

        ");
    s.append("printf(\"Cycle counts:          \");\n        printcounters(counters, 0);");
    s.append("

        printf(\"Branch dir mis:        \");
        printcounters(counters, 1);

        printf(\"Branch target mis:    \");
        printcounters(counters, 2);

        ");
    s.append("toradix28(out);\n        printf(\"Result: \");\n        printarrayinv(out,17);");
    s.append("
        printf(\"\\n\");
    }\n");
    s
}

/// The harness for the Karatsuba multiplication followed by a carry squeeze, timed 21 times.
pub open spec fn karatsuba_squeeze_harness_text(variables: Seq<Seq<char>>) -> Seq<char> {
    "#include \"benchmark.h\"

    void printarrayinv(unsigned int *in, int inlen){
        for(int i =inlen-1;i>=0;i--){
            printf(\"%02x\", in[i]);
        }
        printf(\"\\n\");
    }

    void convert_to_radix226(unsigned int* r, unsigned char *k){
        r[0] = k[0] + (k[1] << 8) + (k[2] << 16) + ((k[3]&3)  << 24);
        r[1] = (k[3] >> 2)  + (k[4]  << 6) + (k[5] << 14) +
            ((k[6] & 15) << 22);
        r[2] = (k[6] >> 4) + (k[7] << 4) + (k[8] << 12) +
            ((k[9] & 63) << 20);
        r[3] =
            (k[9] >> 6) + (k[10] << 2) + ((k[11] ) << 10) + (k[12] << 18);
        r[4] = k[13] + (k[14] << 8) + (k[15]  << 16 )+ (k[16]<<24);
    }

    void dobenchmark() {

        unsigned int a[17];
        unsigned int b[5];
    \n"@ + lines_of(variables) + "

        "@ + "convert_to_radix226(a, a_bytes);\n        convert_to_radix226(b,b_bytes);"@ + "

        printf(\"A: %x, %x, %x, %x, %x\\n\", a[0], a[1], a[2], a[3], a[4]);
        printf(\"B: %x, %x, %x, %x, %x\\n\", b[0], b[1], b[2], b[3], b[4]);

        uint32_t timings[21];
        unsigned int out[17];
        for(int i =0;i<21;i++){
            "@ + "timings[i]=getcycles();\n            karatsuba226asm(out, a,b);"@ + "
        }

        for(int i=1;i<21;i++){
            printf(\"%d, \",timings[i]-timings[i-1]);
        }
        printf(\"\\n\");
        "@ + "squeeze226asm(out);\n        toradix28(out);\n        printarrayinv(out,17);"@ + "
        printf(\"\\n\");
    }\n"@
}

/// Builds the harness for the Karatsuba multiplication followed by a carry squeeze, timed 21 times.
pub fn karatsuba_squeeze_harness_source(variables: &Vec<String>) -> (r: String)
    ensures
        r@ == karatsuba_squeeze_harness_text(string_views(variables@)),
{
    let mut s = String::new();
    s.append("#include \"benchmark.h\"

    void printarrayinv(unsigned int *in, int inlen){
        for(int i =inlen-1;i>=0;i--){
            printf(\"%02x\", in[i]);
        }
        printf(\"\\n\");
    }

    void convert_to_radix226(unsigned int* r, unsigned char *k){
        r[0] = k[0] + (k[1] << 8) + (k[2] << 16) + ((k[3]&3)  << 24);
        r[1] = (k[3] >> 2)  + (k[4]  << 6) + (k[5] << 14) +
            ((k[6] & 15) << 22);
        r[2] = (k[6] >> 4) + (k[7] << 4) + (k[8] << 12) +
            ((k[9] & 63) << 20);
        r[3] =
            (k[9] >> 6) + (k[10] << 2) + ((k[11] ) << 10) + (k[12] << 18);
        r[4] = k[13] + (k[14] << 8) + (k[15]  << 16 )+ (k[16]<<24);
    }

    void dobenchmark() {

        unsigned int a[17];
        unsigned int b[5];
    \n");
    push_lines(&mut s, variables);
    s.append("

        ");
    s.append("convert_to_radix226(a, a_bytes);\n        convert_to_radix226(b,b_bytes);");
    s.append("

        printf(\"A: %x, %x, %x, %x, %x\\n\", a[0], a[1], a[2], a[3], a[4]);
        printf(\"B: %x, %x, %x, %x, %x\\n\", b[0], b[1], b[2], b[3], b[4]);

        uint32_t timings[21];
        unsigned int out[17];
        for(int i =0;i<21;i++){
            ");
    s.append("timings[i]=getcycles();\n            karatsuba226asm(out, a,b);");
    s.append("
        }

        for(int i=1;i<21;i++){
            printf(\"%d, \",timings[i]-timings[i-1]);
        }
        printf(\"\\n\");
        ");
    s.append("squeeze226asm(out);\n        toradix28(out);\n        printarrayinv(out,17);");
    s.append("
        printf(\"\\n\");
    }\n");
    s
}

/// The harness for the modular multiplication in radix 2^26, timed 21 times.
pub open spec fn mulmod_harness_text(variables: Seq<Seq<char>>) -> Seq<char> {
    "#include \"benchmark.h\"

    void convert_to_radix226(unsigned int* r, unsigned char *k){
        r[0] = k[0] + (k[1] << 8) + (k[2] << 16) + ((k[3] & 3) << 24);
        r[1] = ((k[3] >> 2) & 3) + ((k[4] & 252) << 6) + (k[5] << 14) +
            ((k[6] & 15) << 22);
        r[2] = (k[6] >> 4) + ((k[7] & 15) << 4) + ((k[8] & 252) << 12) +
            ((k[9] & 63) << 20);
        r[3] =
            (k[9] >> 6) + (k[10] << 2) + ((k[11] & 15) << 10) + ((k[12] & 252) << 18);
        r[4] = k[13] + (k[14] << 8) + ((k[15] & 15) << 16);
    }

    void dobenchmark() {

        unsigned int a[5];
        unsigned int b[5];
    \n"@ + lines_of(variables) + "

        "@ + "convert_to_radix226(a, a_bytes);\n        convert_to_radix226(b,b_bytes);"@ + "


        uint32_t timings[21];
        for(int i =0;i<21;i++){
            "@ + "timings[i]=getcycles();\n            mulmod226asm(a,b);"@ + "
        }

        for(int i=1;i<21;i++){
            printf(\"%d, \",timings[i]-timings[i-1]);
        }
        printf(\"\\n\");
    }\n"@
}

/// Builds the harness for the modular multiplication in radix 2^26, timed 21 times.
pub fn mulmod_harness_source(variables: &Vec<String>) -> (r: String)
    ensures
        r@ == mulmod_harness_text(string_views(variables@)),
{
    let mut s = String::new();
    s.append("#include \"benchmark.h\"

    void convert_to_radix226(unsigned int* r, unsigned char *k){
        r[0] = k[0] + (k[1] << 8) + (k[2] << 16) + ((k[3] & 3) << 24);
        r[1] = ((k[3] >> 2) & 3) + ((k[4] & 252) << 6) + (k[5] << 14) +
            ((k[6] & 15) << 22);
        r[2] = (k[6] >> 4) + ((k[7] & 15) << 4) + ((k[8] & 252) << 12) +
            ((k[9] & 63) << 20);
        r[3] =
            (k[9] >> 6) + (k[10] << 2) + ((k[11] & 15) << 10) + ((k[12] & 252) << 18);
        r[4] = k[13] + (k[14] << 8) + ((k[15] & 15) << 16);
    }

    void dobenchmark() {

        unsigned int a[5];
        unsigned int b[5];
    \n");
    push_lines(&mut s, variables);
    s.append("

        ");
    s.append("convert_to_radix226(a, a_bytes);\n        convert_to_radix226(b,b_bytes);");
    s.append("


        uint32_t timings[21];
        for(int i =0;i<21;i++){
            ");
    s.append("timings[i]=getcycles();\n            mulmod226asm(a,b);");
    s.append("
        }

        for(int i=1;i<21;i++){
            printf(\"%d, \",timings[i]-timings[i-1]);
        }
        printf(\"\\n\");
    }\n");
    s
}

/// The harness for one timed Poly1305 authentication of 131 bytes.
pub open spec fn poly1305_single_harness_text(variables: Seq<Seq<char>>) -> Seq<char> {
    "#include \"benchmark.h\"

    void dobenchmark(uint64_t *timings, unsigned char a[16]) {\n"@ + lines_of(variables) + "
        uint32_t oldcount, newcount;
        unsigned char x = 5, y = 10;
        "@ + "oldcount = getcycles();\n        crypto_onetimeauth(a, c, 131, rs);\n        newcount = getcycles();"@ + "
        timings[0] = newcount - oldcount;
    }\n"@
}

/// Builds the harness for one timed Poly1305 authentication of 131 bytes.
pub fn poly1305_single_harness_source(variables: &Vec<String>) -> (r: String)
    ensures
        r@ == poly1305_single_harness_text(string_views(variables@)),
{
    let mut s = String::new();
    s.append("#include \"benchmark.h\"

    void dobenchmark(uint64_t *timings, unsigned char a[16]) {\n");
    push_lines(&mut s, variables);
    s.append("
        uint32_t oldcount, newcount;
        unsigned char x = 5, y = 10;
        ");
    s.append("oldcount = getcycles();\n        crypto_onetimeauth(a, c, 131, rs);\n        newcount = getcycles();");
    s.append("
        timings[0] = newcount - oldcount;
    }\n");
    s
}

/// The harness for the constant-time 26-bit multiplication, timed 21 times.
pub open spec fn securemul_harness_text(variables: Seq<Seq<char>>) -> Seq<char> {
    "#include \"benchmark.h\"

    void dobenchmark() {\n"@ + lines_of(variables) + "
        uint32_t timings[21];
        for(int i =0;i<21;i++){
            "@ + "timings[i]=getcycles();\n            securemul226(a,b);"@ + "
        }

        for(int i=1;i<21;i++){
            printf(\"%d, \",timings[i]-timings[i-1]);
        }
        printf(\"\\n\");
        "@ + "uint64_t output = securemul226(a,b);"@ + "
        printf(\"0x%llx\\n\", output);
    }\n"@
}

/// Builds the harness for the constant-time 26-bit multiplication, timed 21 times.
pub fn securemul_harness_source(variables: &Vec<String>) -> (r: String)
    ensures
        r@ == securemul_harness_text(string_views(variables@)),
{
    let mut s = String::new();
    s.append("#include \"benchmark.h\"

    void dobenchmark() {\n");
    push_lines(&mut s, variables);
    s.append("
        uint32_t timings[21];
        for(int i =0;i<21;i++){
            ");
    s.append("timings[i]=getcycles();\n            securemul226(a,b);");
    s.append("
        }

        for(int i=1;i<21;i++){
            printf(\"%d, \",timings[i]-timings[i-1]);
        }
        printf(\"\\n\");
        ");
    s.append("uint64_t output = securemul226(a,b);");
    s.append("
        printf(\"0x%llx\\n\", output);
    }\n");
    s
}

/// The harness for the Poly1305 block loop over `inlen` message bytes,
/// timed 21 times.
pub open spec fn authloop_harness_text(variables: Seq<Seq<char>>, inlen: nat) -> Seq<char> {
    "#include \"benchmark.h\"

    void dobenchmark() {

    unsigned int c[17];
    unsigned int h[17]={0};
    unsigned int r[5];
    \n"@ + lines_of(variables) + "
  r[0] = k[0] + (k[1] << 8) + (k[2] << 16) + ((k[3] & 3) << 24);
  r[1] = ((k[3] >> 2) & 3) + ((k[4] & 252) << 6) + (k[5] << 14) +
         ((k[6] & 15) << 22);
  r[2] = (k[6] >> 4) + ((k[7] & 15) << 4) + ((k[8] & 252) << 12) +
         ((k[9] & 63) << 20);
  r[3] =
      (k[9] >> 6) + (k[10] << 2) + ((k[11] & 15) << 10) + ((k[12] & 252) << 18);
  r[4] = k[13] + (k[14] << 8) + ((k[15] & 15) << 16);



        uint32_t timings[21];
        for(int i =0;i<21;i++){
            "@ + "timings[i]=getcycles();
            onetimeauth_loop(in, "@ + decimal(inlen) + ", h, r, c);"@ + "
        }

        for(int i=1;i<21;i++){
            printf(\"%d, \",timings[i]-timings[i-1]);
        }
        printf(\"\\n\");
    }\n"@
}

/// Builds the harness for the Poly1305 block loop.
pub fn authloop_harness_source(variables: &Vec<String>, inlen: usize) -> (r: String)
    ensures
        r@ == authloop_harness_text(string_views(variables@), inlen as nat),
{
    let mut s = String::new();
    s.append("#include \"benchmark.h\"

    void dobenchmark() {

    unsigned int c[17];
    unsigned int h[17]={0};
    unsigned int r[5];
    \n");
    push_lines(&mut s, variables);
    s.append("
  r[0] = k[0] + (k[1] << 8) + (k[2] << 16) + ((k[3] & 3) << 24);
  r[1] = ((k[3] >> 2) & 3) + ((k[4] & 252) << 6) + (k[5] << 14) +
         ((k[6] & 15) << 22);
  r[2] = (k[6] >> 4) + ((k[7] & 15) << 4) + ((k[8] & 252) << 12) +
         ((k[9] & 63) << 20);
  r[3] =
      (k[9] >> 6) + (k[10] << 2) + ((k[11] & 15) << 10) + ((k[12] & 252) << 18);
  r[4] = k[13] + (k[14] << 8) + ((k[15] & 15) << 16);



        uint32_t timings[21];
        for(int i =0;i<21;i++){
            ");
    s.append("timings[i]=getcycles();
            onetimeauth_loop(in, ");
    push_decimal(&mut s, inlen as u64);
    s.append(", h, r, c);");
    s.append("
        }

        for(int i=1;i<21;i++){
            printf(\"%d, \",timings[i]-timings[i-1]);
        }
        printf(\"\\n\");
    }\n");
    s
}

/// Each line of a list is in the text that lists them.
pub proof fn lemma_lines_contains(vs: Seq<Seq<char>>, i: int)
    requires
        0 <= i < vs.len(),
    ensures
        contains_pat(lines_of(vs), vs[i]),
    decreases vs.len(),
{
    lemma_contains_concat();
    let d = vs.drop_last();
    if i < vs.len() - 1 {
        lemma_lines_contains(d, i);
        assert(d[i] == vs[i]);
    }
    assert(lines_of(vs) == lines_of(d) + vs.last() + seq!['\n']);
}

/// The harness runs the function on the declared inputs and reports the
/// counters it promises: it sets `runs` to the number of timed calls, its
/// `printcounters` prints for one slot the differences of that slot between
/// consecutive counter triples, it holds every declaration, reads the cycle
/// counter into slot 0 of a counter triple before each of the `runs` timed
/// calls of `functioncall`, prints the differences of slot 0 (the cycle
/// counter) on the `Cycle counts:` line, of slot 1 on the branch line and
/// of slot 2 on the instruction-cache line, and then prints the result with
/// `resultprint`.
pub proof fn lemma_harness_runs_inputs(
    runs: nat,
    variables: Seq<Seq<char>>,
    functioncall: Seq<char>,
    resultprint: Seq<char>,
)
    ensures
        forall|i: int|
            0 <= i < variables.len() ==> contains_pat(
                harness_text(runs, variables, functioncall, resultprint),
                #[trigger] variables[i],
            ),
        contains_pat(
            harness_text(runs, variables, functioncall, resultprint),
            "for(int i =0;i<runs;i++){\n            getcycles(&counters[i*3]);"@,
        ),
        contains_pat(harness_text(runs, variables, functioncall, resultprint), functioncall),
        contains_pat(
            harness_text(runs, variables, functioncall, resultprint),
            "printf(\"Cycle counts:          \");\n        printcounters(counters, 0);"@,
        ),
        contains_pat(
            harness_text(runs, variables, functioncall, resultprint),
            "printf(\"Branch mispredictions:        \");\n        printcounters(counters, 1);"@,
        ),
        contains_pat(
            harness_text(runs, variables, functioncall, resultprint),
            "printf(\"ICache misses:    \");\n        printcounters(counters, 2);"@,
        ),
        contains_pat(harness_text(runs, variables, functioncall, resultprint), "printf(\"Result: \");"@),
        contains_pat(harness_text(runs, variables, functioncall, resultprint), resultprint),
        contains_pat(
            harness_text(runs, variables, functioncall, resultprint),
            "static int runs="@ + decimal(runs) + ";"@,
        ),
        contains_pat(
            harness_text(runs, variables, functioncall, resultprint),
            "for(int i = initialoffset+3; i < runs*3;i+=3){\n               printf(\"%6u, \", a[i]-a[i-3]);"@,
        ),
{
    lemma_contains_concat();
    lemma_contains_last_three(
        "#include \"benchmark.h\"\n    extern void icachemisses();\n    "@,
        "static int runs="@,
        decimal(runs),
        ";"@,
    );
    assert forall|i: int| 0 <= i < variables.len() implies contains_pat(
        harness_text(runs, variables, functioncall, resultprint),
        #[trigger] variables[i],
    ) by {
        lemma_lines_contains(variables, i);
    }
}

/// The Karatsuba harness multiplies the two declared operands: it holds
/// every declaration, loads `a` from `a_bytes` and `b` from `b_bytes`,
/// times `karatsuba226asm(out, a,b)` after reading the cycle counter into
/// slot 0, prints slot 0's differences on the `Cycle counts:` line, and
/// prints the product as its result.
pub proof fn lemma_karatsuba_harness_multiplies(variables: Seq<Seq<char>>)
    ensures
        forall|i: int|
            0 <= i < variables.len() ==> contains_pat(karatsuba_harness_text(variables), #[trigger] variables[i]),
        contains_pat(
            karatsuba_harness_text(variables),
            "convert_to_radix226_kara(a, a_bytes);\n        convert_to_radix226_kara(b,b_bytes);"@,
        ),
        contains_pat(
            karatsuba_harness_text(variables),
            "for(int i =0;i<21;i++){\n            getcycles(&counters[i*3]);\n            karatsuba226asm(out, a,b);"@,
        ),
        contains_pat(
            karatsuba_harness_text(variables),
            "printf(\"Cycle counts:          \");\n        printcounters(counters, 0);"@,
        ),
        contains_pat(
            karatsuba_harness_text(variables),
            "toradix28(out);\n        printf(\"Result: \");\n        printarrayinv(out,17);"@,
        ),
{
    lemma_contains_concat();
    assert forall|i: int| 0 <= i < variables.len() implies contains_pat(
        karatsuba_harness_text(variables),
        #[trigger] variables[i],
    ) by {
        lemma_lines_contains(variables, i);
    }
}

/// The Karatsuba-and-squeeze harness multiplies the two declared operands:
/// it holds every declaration, loads `a` from `a_bytes` and `b` from
/// `b_bytes`, times `karatsuba226asm(out, a,b)`, and prints the squeezed
/// product.
pub proof fn lemma_karatsuba_squeeze_harness_multiplies(variables: Seq<Seq<char>>)
    ensures
        forall|i: int|
            0 <= i < variables.len() ==> contains_pat(
                karatsuba_squeeze_harness_text(variables),
                #[trigger] variables[i],
            ),
        contains_pat(
            karatsuba_squeeze_harness_text(variables),
            "convert_to_radix226(a, a_bytes);\n        convert_to_radix226(b,b_bytes);"@,
        ),
        contains_pat(
            karatsuba_squeeze_harness_text(variables),
            "timings[i]=getcycles();\n            karatsuba226asm(out, a,b);"@,
        ),
        contains_pat(
            karatsuba_squeeze_harness_text(variables),
            "squeeze226asm(out);\n        toradix28(out);\n        printarrayinv(out,17);"@,
        ),
{
    lemma_contains_concat();
    assert forall|i: int| 0 <= i < variables.len() implies contains_pat(
        karatsuba_squeeze_harness_text(variables),
        #[trigger] variables[i],
    ) by {
        lemma_lines_contains(variables, i);
    }
}

/// The modular multiplication harness loads `a` from `a_bytes` and `b` from
/// `b_bytes` and times `mulmod226asm(a,b)` on them.
pub proof fn lemma_mulmod_harness_multiplies(variables: Seq<Seq<char>>)
    ensures
        forall|i: int|
            0 <= i < variables.len() ==> contains_pat(mulmod_harness_text(variables), #[trigger] variables[i]),
        contains_pat(
            mulmod_harness_text(variables),
            "convert_to_radix226(a, a_bytes);\n        convert_to_radix226(b,b_bytes);"@,
        ),
        contains_pat(mulmod_harness_text(variables), "timings[i]=getcycles();\n            mulmod226asm(a,b);"@),
{
    lemma_contains_concat();
    assert forall|i: int| 0 <= i < variables.len() implies contains_pat(
        mulmod_harness_text(variables),
        #[trigger] variables[i],
    ) by {
        lemma_lines_contains(variables, i);
    }
}

/// The single-message Poly1305 harness authenticates the declared 131-byte
/// message `c` under the declared key `rs` between two cycle-counter reads.
pub proof fn lemma_poly1305_single_harness_authenticates(variables: Seq<Seq<char>>)
    ensures
        forall|i: int|
            0 <= i < variables.len() ==> contains_pat(
                poly1305_single_harness_text(variables),
                #[trigger] variables[i],
            ),
        contains_pat(
            poly1305_single_harness_text(variables),
            "oldcount = getcycles();\n        crypto_onetimeauth(a, c, 131, rs);\n        newcount = getcycles();"@,
        ),
{
    lemma_contains_concat();
    assert forall|i: int| 0 <= i < variables.len() implies contains_pat(
        poly1305_single_harness_text(variables),
        #[trigger] variables[i],
    ) by {
        lemma_lines_contains(variables, i);
    }
}

/// The multiplication harness times `securemul226(a,b)` on the declared
/// operands and prints the product of the same call.
pub proof fn lemma_securemul_harness_multiplies(variables: Seq<Seq<char>>)
    ensures
        forall|i: int|
            0 <= i < variables.len() ==> contains_pat(securemul_harness_text(variables), #[trigger] variables[i]),
        contains_pat(securemul_harness_text(variables), "timings[i]=getcycles();\n            securemul226(a,b);"@),
        contains_pat(securemul_harness_text(variables), "uint64_t output = securemul226(a,b);"@),
{
    lemma_contains_concat();
    assert forall|i: int| 0 <= i < variables.len() implies contains_pat(
        securemul_harness_text(variables),
        #[trigger] variables[i],
    ) by {
        lemma_lines_contains(variables, i);
    }
}

/// A text that ends in three parts contains them joined.
proof fn lemma_contains_last_three(x: Seq<char>, a: Seq<char>, d: Seq<char>, b: Seq<char>)
    ensures
        contains_pat(x + a + d + b, a + d + b),
{
    lemma_contains_concat();
    assert(x + a + d + b =~= x + (a + d + b));
}

/// The block-loop harness runs on the declared inputs: it holds every
/// declaration and times `onetime_authloop` over exactly `inlen` bytes of
/// `in` after reading the cycle counter.
pub proof fn lemma_authloop_harness_loops(variables: Seq<Seq<char>>, inlen: nat)
    ensures
        forall|i: int|
            0 <= i < variables.len() ==> contains_pat(authloop_harness_text(variables, inlen), #[trigger] variables[i]),
        contains_pat(
            authloop_harness_text(variables, inlen),
            "timings[i]=getcycles();\n            onetimeauth_loop(in, "@ + decimal(inlen) + ", h, r, c);"@,
        ),
{
    lemma_contains_concat();
    assert forall|x: Seq<char>, a: Seq<char>, d: Seq<char>, b: Seq<char>|
        #![trigger x + a + d + b]
        contains_pat(x + a + d + b, a + d + b) by {
        lemma_contains_last_three(x, a, d, b);
    }
    assert forall|i: int| 0 <= i < variables.len() implies contains_pat(
        authloop_harness_text(variables, inlen),
        #[trigger] variables[i],
    ) by {
        lemma_lines_contains(variables, i);
    }
}

} // verus!
