//! Sample values for documentation: a thesis's fields and a profile name as
//! they would arrive in a submission.

use vstd::prelude::*;

verus! {

/// A sample digital object identifier.
pub fn doi() -> (r: String)
    ensures
        r@ == "10.1145/3428204"@,
{
    String::from_str("10.1145/3428204")
}

/// A sample thesis title.
pub fn title() -> (r: String)
    ensures
        r@ == "形状记忆聚氨酯的合成及其在织物中的应用"@,
{
    String::from_str("形状记忆聚氨酯的合成及其在织物中的应用")
}

/// A sample abstract.
pub fn abstraction() -> (r: String)
    ensures
        r@
            == "（摘要是一篇具有独立性和完整性的短文，应概括而扼要地反映出本论文的主要内容。包括研究目的、研究方法、研究结果和结论等，特别要突出研究结果和结论。中文摘要力求语言精炼准确，博士学位论文建议1000~1200字，硕士学位论文摘要建议500~800字。摘要中不可出现参考文献、图、表、化学结构式、非公知公用的符号和术语。英文摘要与中文摘要的内容应完全一致，在语法、用词上应准确无误，语言简练通顺。留学生的英文版博士学位论文中应有不少于3000字的“详细中文摘要”。）"@,
{
    String::from_str(
        "（摘要是一篇具有独立性和完整性的短文，应概括而扼要地反映出本论文的主要内容。包括研究目的、研究方法、研究结果和结论等，特别要突出研究结果和结论。中文摘要力求语言精炼准确，博士学位论文建议1000~1200字，硕士学位论文摘要建议500~800字。摘要中不可出现参考文献、图、表、化学结构式、非公知公用的符号和术语。英文摘要与中文摘要的内容应完全一致，在语法、用词上应准确无误，语言简练通顺。留学生的英文版博士学位论文中应有不少于3000字的“详细中文摘要”。）",
    )
}

/// Sample keywords.
pub fn keywords() -> (r: Vec<String>)
    ensures
        r@.len() == 5,
        r@[0]@ == "形状记忆"@,
        r@[1]@ == "聚氨酯"@,
        r@[2]@ == "织物"@,
        r@[3]@ == "合成"@,
        r@[4]@ == "应用"@,
{
    let mut r: Vec<String> = Vec::new();
    r.push(String::from_str("形状记忆"));
    r.push(String::from_str("聚氨酯"));
    r.push(String::from_str("织物"));
    r.push(String::from_str("合成"));
    r.push(String::from_str("应用"));
    r
}

/// Sample languages; the set does not repeat.
pub fn language() -> (r: Vec<String>)
    ensures
        r@.len() == 2,
        r@[0]@ == "zh_CN"@,
        r@[1]@ == "en_US"@,
        r@[0]@ != r@[1]@,
{
    let mut r: Vec<String> = Vec::new();
    let a = String::from_str("zh_CN");
    let b = String::from_str("en_US");
    proof {
        reveal_strlit("zh_CN");
        reveal_strlit("en_US");
        assert(a@ != b@) by {
            assert(a@[0] == 'z' && b@[0] == 'e');
        }
    }
    r.push(a);
    r.push(b);
    r
}

/// A sample profile name.
pub fn profile_name() -> (r: String)
    ensures
        r@ == "納西妲"@,
{
    String::from_str("納西妲")
}

} // verus!
