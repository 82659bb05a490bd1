//! Post-processing of generated HLSL: a documentation header and the
//! `[numthreads]` attribute on the compute entry point.
use vstd::prelude::*;

use crate::module::{
    find_entry, has_entry, is_bindable, is_first_named, lemma_first_named_unique, named_entry,
    AddressSpace, GlobalVariable, Module,
};
use crate::text::{
    chars_of, contains, contains_in_prefix, decimal, is_last_occurrence, lemma_last_shift,
    lemma_last_unshift, lemma_occurs_extend, lemma_occurs_shift, occurs_at, push_decimal,
    rfind_chars, starts_with, has_prefix,
};
use vstd::string::{StrSliceExecFns, StringExecFns};

verus! {

/// The register kind that a resource in `space` occupies, as shown in the header.
pub open spec fn register_label(space: AddressSpace) -> Seq<char> {
    match space {
        AddressSpace::Uniform => "constant-buffer register"@,
        AddressSpace::Storage { writable } => if writable {
            "read-write structured-buffer register"@
        } else {
            "read-only structured-buffer register"@
        },
        AddressSpace::Handle => "texture/sampler register"@,
        AddressSpace::Other => ""@,
    }
}

/// A variable that gets a line in the header: bindable and named.
pub open spec fn is_listed(v: GlobalVariable) -> bool {
    is_bindable(v) && v.name is Some
}

/// The header line describing a listed variable.
pub open spec fn resource_line(v: GlobalVariable) -> Seq<char> {
    "//   "@ + v.name->0@ + " : group="@ + decimal(v.binding->0.group as nat) + " binding="@
        + decimal(v.binding->0.binding as nat) + " ("@ + register_label(v.space) + ")\n"@
}

/// The header lines of all listed variables, in declaration order.
pub open spec fn resource_lines(vs: Seq<GlobalVariable>) -> Seq<char>
    decreases vs.len(),
{
    if vs.len() == 0 {
        Seq::empty()
    } else {
        resource_lines(vs.drop_last()) + if is_listed(vs.last()) {
            resource_line(vs.last())
        } else {
            Seq::empty()
        }
    }
}

/// The comment block put in front of the generated code for entry point `e`.
pub open spec fn header(m: Module, e: Seq<char>) -> Seq<char> {
    let ws = named_entry(m, e).workgroup_size;
    "// Generated from WGSL\n"@ + "// Entry point: "@ + e + "\n"@ + "// Workgroup size: ["@
        + decimal(ws[0] as nat) + ", "@ + decimal(ws[1] as nat) + ", "@ + decimal(ws[2] as nat)
        + "]\n"@ + "//\n"@ + "// Resource Bindings:\n"@ + resource_lines(m.global_variables@)
        + "//\n\n"@
}

/// The opening token of the compute-kernel attribute.
pub open spec fn numthreads_open() -> Seq<char> {
    "[numthreads("@
}

/// The compute-kernel attribute for a workgroup size, on a line of its own.
pub open spec fn numthreads_attribute(ws: [u32; 3]) -> Seq<char> {
    numthreads_open() + decimal(ws[0] as nat) + ", "@ + decimal(ws[1] as nat) + ", "@ + decimal(
        ws[2] as nat,
    ) + ")]\n"@
}

/// The text that starts the definition of function `e`.
pub open spec fn definition_pattern(e: Seq<char>) -> Seq<char> {
    "void "@ + e + "("@
}

/// Text before a definition that already carries an attribute.
pub open spec fn already_annotated(pre: Seq<char>) -> bool {
    (pre.len() > 0 && pre.last() == ']') || contains(pre, numthreads_open())
}

/// `attr` put in front of the last occurrence of `pat` in `t`, unless there is
/// none or the text before it is already annotated.
pub open spec fn insert_before_last(t: Seq<char>, pat: Seq<char>, attr: Seq<char>) -> Seq<char> {
    if exists|i: int| is_last_occurrence(t, pat, i) {
        let i = choose|i: int| is_last_occurrence(t, pat, i);
        if already_annotated(t.subrange(0, i)) {
            t
        } else {
            t.subrange(0, i) + attr + t.subrange(i, t.len() as int)
        }
    } else {
        t
    }
}

/// The generated code of `code`: without the header for `e`, where an
/// earlier run already put it in front.
pub open spec fn generated_body(code: Seq<char>, m: Module, e: Seq<char>) -> Seq<char> {
    if starts_with(code, header(m, e)) {
        code.subrange(header(m, e).len() as int, code.len() as int)
    } else {
        code
    }
}

/// The result of post-processing `code` for entry point `e` of `m`: the
/// header, then the generated code with the attribute put in front of the
/// last definition of `e`.
pub open spec fn annotated_code(code: Seq<char>, m: Module, e: Seq<char>) -> Seq<char> {
    header(m, e) + insert_before_last(
        generated_body(code, m, e),
        definition_pattern(e),
        numthreads_attribute(named_entry(m, e).workgroup_size),
    )
}

/// The header label of a resource's register kind.
pub fn register_kind_label(space: AddressSpace) -> (r: &'static str)
    ensures
        r@ == register_label(space),
{
    match space {
        AddressSpace::Uniform => "constant-buffer register",
        AddressSpace::Storage { writable } => if writable {
            "read-write structured-buffer register"
        } else {
            "read-only structured-buffer register"
        },
        AddressSpace::Handle => "texture/sampler register",
        AddressSpace::Other => "",
    }
}

/// Appends the header lines of all listed variables of `vars`.
fn append_resource_lines(out: &mut String, vars: &Vec<GlobalVariable>)
    ensures
        final(out)@ == old(out)@ + resource_lines(vars@),
{
    let mut i: usize = 0;
    while i < vars.len()
        invariant
            i <= vars.len(),
            out@ == old(out)@ + resource_lines(vars@.subrange(0, i as int)),
        decreases vars.len() - i,
    {
        let v = &vars[i];
        let ghost before = out@;
        let ghost vs = vars@.subrange(0, i + 1);
        assert(vs.drop_last() =~= vars@.subrange(0, i as int));
        assert(vs.last() == vars@[i as int]);
        match (&v.name, &v.binding) {
            (Some(name), Some(b)) => {
                if !matches!(v.space, AddressSpace::Other) {
                    out.append("//   ");
                    out.append(name.as_str());
                    out.append(" : group=");
                    push_decimal(out, b.group);
                    out.append(" binding=");
                    push_decimal(out, b.binding);
                    out.append(" (");
                    out.append(register_kind_label(v.space));
                    out.append(")\n");
                    assert(out@ == before + resource_line(*v));
                }
            },
            _ => {},
        }
        i = i + 1;
        assert(out@ == old(out)@ + resource_lines(vs)) by {
            assert(resource_lines(vs) == resource_lines(vars@.subrange(0, i - 1)) + (
            if is_listed(vars@[i - 1]) {
                resource_line(vars@[i - 1])
            } else {
                Seq::empty()
            }));
        }
    }
    assert(vars@.subrange(0, vars.len() as int) =~= vars@);
}

/// Prepends a documentation header to HLSL generated for the entry point
/// named `entry_point_name`, and puts the `[numthreads(x, y, z)]` attribute
/// with the entry point's workgroup size in front of the last definition
/// `void <name>(` in the code, unless the code before it already ends with
/// `]` or holds `[numthreads(`. Code that already starts with the same
/// header is taken as output of an earlier run: its header is not repeated,
/// so a second run changes nothing.
pub fn add_hlsl_metadata(hlsl_code: &str, module: &Module, entry_point_name: &str) -> (r: String)
    requires
        has_entry(*module, entry_point_name@),
    ensures
        r@ == annotated_code(hlsl_code@, *module, entry_point_name@),
{
    let name = chars_of(entry_point_name);
    let found = find_entry(module, &name);
    let idx = match found {
        Some(i) => i,
        None => {
            return String::new();
        },
    };
    proof {
        let k = choose|k: int| is_first_named(module.entry_points@, name@, k);
        lemma_first_named_unique(module.entry_points@, name@, idx as int, k);
    }
    let ws = module.entry_points[idx].workgroup_size;
    assert(ws == named_entry(*module, name@).workgroup_size);

    let mut out = String::new();
    out.append("// Generated from WGSL\n");
    out.append("// Entry point: ");
    out.append(entry_point_name);
    out.append("\n");
    out.append("// Workgroup size: [");
    push_decimal(&mut out, ws[0]);
    out.append(", ");
    push_decimal(&mut out, ws[1]);
    out.append(", ");
    push_decimal(&mut out, ws[2]);
    out.append("]\n");
    out.append("//\n");
    out.append("// Resource Bindings:\n");
    append_resource_lines(&mut out, &module.global_variables);
    out.append("//\n\n");
    assert(out@ =~= header(*module, name@));

    let head = chars_of(out.as_str());
    let code = chars_of(hlsl_code);
    let generated: &str = if has_prefix(&code, &head) {
        hlsl_code.substring_char(head.len(), code.len())
    } else {
        hlsl_code
    };
    assert(generated@ == generated_body(hlsl_code@, *module, name@));
    let body = chars_of(generated);

    let mut pattern_text = String::new();
    pattern_text.append("void ");
    pattern_text.append(entry_point_name);
    pattern_text.append("(");
    let pattern = chars_of(pattern_text.as_str());
    assert(pattern@ =~= definition_pattern(name@));

    let mut attr = String::new();
    attr.append("[numthreads(");
    push_decimal(&mut attr, ws[0]);
    attr.append(", ");
    push_decimal(&mut attr, ws[1]);
    attr.append(", ");
    push_decimal(&mut attr, ws[2]);
    attr.append(")]\n");
    assert(attr@ =~= numthreads_attribute(ws));

    match rfind_chars(&body, &pattern) {
        Some(pos) => {
            proof {
                let k = choose|k: int| is_last_occurrence(body@, pattern@, k);
                lemma_last_unique(body@, pattern@, pos as int, k);
            }
            let open_token = chars_of("[numthreads(");
            let ends_with_bracket = pos > 0 && body[pos - 1] == ']';
            if ends_with_bracket || contains_in_prefix(&body, pos, &open_token) {
                out.append(generated);
            } else {
                out.append(generated.substring_char(0, pos));
                out.append(attr.as_str());
                out.append(generated.substring_char(pos, body.len()));
            }
        },
        None => {
            out.append(generated);
        },
    }
    out
}

/// A text has at most one last occurrence of a pattern.
pub proof fn lemma_last_unique(t: Seq<char>, p: Seq<char>, i: int, k: int)
    requires
        is_last_occurrence(t, p, i),
        is_last_occurrence(t, p, k),
    ensures
        i == k,
{
}

/// Where the attribute is injected, it stands directly in front of the last
/// occurrence of the definition, which stays the last one.
pub proof fn lemma_attribute_precedes_definition(t: Seq<char>, pat: Seq<char>, attr: Seq<char>, i: int)
    requires
        is_last_occurrence(t, pat, i),
        !already_annotated(t.subrange(0, i)),
    ensures
        insert_before_last(t, pat, attr) == t.subrange(0, i) + attr + t.subrange(i, t.len() as int),
        insert_before_last(t, pat, attr).subrange(i, i + attr.len()) == attr,
        is_last_occurrence(insert_before_last(t, pat, attr), pat, i + attr.len()),
{
    let k = choose|k: int| is_last_occurrence(t, pat, k);
    lemma_last_unique(t, pat, i, k);
    let pre = t.subrange(0, i);
    let suf = t.subrange(i, t.len() as int);
    assert(t =~= pre + suf);
    lemma_last_unshift(pre, suf, pat, i);
    lemma_last_shift(pre + attr, suf, pat, 0);
    let t1 = pre + attr + suf;
    assert(t1.subrange(i, i + attr.len()) =~= attr);
}

/// Putting the attribute in front of the last definition a second time
/// changes nothing.
pub proof fn lemma_insert_idempotent(t: Seq<char>, pat: Seq<char>, attr: Seq<char>)
    requires
        starts_with(attr, numthreads_open()),
    ensures
        insert_before_last(insert_before_last(t, pat, attr), pat, attr) == insert_before_last(
            t,
            pat,
            attr,
        ),
{
    if exists|i: int| is_last_occurrence(t, pat, i) {
        let i = choose|i: int| is_last_occurrence(t, pat, i);
        let pre = t.subrange(0, i);
        if !already_annotated(pre) {
            lemma_attribute_precedes_definition(t, pat, attr, i);
            let t1 = insert_before_last(t, pat, attr);
            let j = i + attr.len();
            let k = choose|k: int| is_last_occurrence(t1, pat, k);
            lemma_last_unique(t1, pat, j, k);
            assert(t1.subrange(0, j) =~= pre + attr);
            let open = numthreads_open();
            assert(occurs_at(attr, open, 0));
            lemma_occurs_shift(pre, attr, open, 0);
            assert(already_annotated(t1.subrange(0, j)));
        }
    }
}

/// Running the post-processor on its own output changes nothing: the header
/// is not repeated and the attribute is not injected a second time.
pub proof fn lemma_annotate_idempotent(code: Seq<char>, m: Module, e: Seq<char>)
    ensures
        annotated_code(annotated_code(code, m, e), m, e) == annotated_code(code, m, e),
{
    let h = header(m, e);
    let pat = definition_pattern(e);
    let attr = numthreads_attribute(named_entry(m, e).workgroup_size);
    let body = generated_body(code, m, e);
    let b1 = insert_before_last(body, pat, attr);
    let out1 = h + b1;
    assert(out1 == annotated_code(code, m, e));
    assert(out1.subrange(0, h.len() as int) =~= h);
    assert(out1.subrange(h.len() as int, out1.len() as int) =~= b1);
    assert(generated_body(out1, m, e) == b1);
    assert(attr.subrange(0, numthreads_open().len() as int) =~= numthreads_open());
    lemma_insert_idempotent(body, pat, attr);
}

/// The header line of every listed variable appears in `resource_lines`.
pub proof fn lemma_resource_lines_hold(vs: Seq<GlobalVariable>, k: int)
    requires
        0 <= k < vs.len(),
        is_listed(vs[k]),
    ensures
        contains(resource_lines(vs), resource_line(vs[k])),
    decreases vs.len(),
{
    let rest = vs.drop_last();
    let line = resource_line(vs[k]);
    if k == vs.len() - 1 {
        assert(occurs_at(line, line, 0)) by {
            assert(line.subrange(0, line.len() as int) =~= line);
        }
        lemma_occurs_shift(resource_lines(rest), line, line, 0);
    } else {
        assert(rest[k] == vs[k]);
        lemma_resource_lines_hold(rest, k);
        let q = choose|q: int| occurs_at(resource_lines(rest), line, q);
        let tail = if is_listed(vs.last()) {
            resource_line(vs.last())
        } else {
            Seq::empty()
        };
        lemma_occurs_extend(resource_lines(rest), tail, line, q);
    }
}

/// Every named storage buffer with a binding gets a header line, labelled as
/// a read-write structured buffer when it can be written and as a read-only
/// one otherwise.
pub proof fn lemma_header_labels_storage(m: Module, e: Seq<char>, k: int)
    requires
        0 <= k < m.global_variables@.len(),
        m.global_variables@[k].binding is Some,
        m.global_variables@[k].name is Some,
        m.global_variables@[k].space is Storage,
    ensures
        contains(header(m, e), resource_line(m.global_variables@[k])),
        register_label(m.global_variables@[k].space) == if m.global_variables@[k].space->writable {
            "read-write structured-buffer register"@
        } else {
            "read-only structured-buffer register"@
        },
{
    let vs = m.global_variables@;
    let line = resource_line(vs[k]);
    let ws = named_entry(m, e).workgroup_size;
    let x = "// Generated from WGSL\n"@ + "// Entry point: "@ + e + "\n"@ + "// Workgroup size: ["@
        + decimal(ws[0] as nat) + ", "@ + decimal(ws[1] as nat) + ", "@ + decimal(ws[2] as nat)
        + "]\n"@ + "//\n"@ + "// Resource Bindings:\n"@;
    assert(header(m, e) == x + resource_lines(vs) + "//\n\n"@);
    lemma_resource_lines_hold(vs, k);
    let q = choose|q: int| occurs_at(resource_lines(vs), line, q);
    lemma_occurs_shift(x, resource_lines(vs), line, q);
    lemma_occurs_extend(x + resource_lines(vs), "//\n\n"@, line, x.len() + q);
}

} // verus!
