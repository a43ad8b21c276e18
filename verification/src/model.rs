//! The custom language-model definition: the model file the assistant
//! registers with the local model service, and the decision of what to do
//! about it given what the service reports.
use vstd::prelude::*;

verus! {

/// What the model-creation routine should do, given what the service
/// reports about the base and custom models.
#[derive(Debug, Clone, Copy, PartialEq, Eq, Structural)]
pub enum ModelPlan {
    /// The base model is missing: report it and stop.
    MissingBase,
    /// The custom model already exists: report it and stop.
    AlreadyExists,
    /// Both probes passed: write the model file and create the model.
    Create,
}

/// Decides the model-creation step from the two presence probes: the base
/// model must exist and the custom model must not.
pub fn plan_model_creation(base_exists: bool, custom_exists: bool) -> (r: ModelPlan)
    ensures
        r == if !base_exists {
            ModelPlan::MissingBase
        } else if custom_exists {
            ModelPlan::AlreadyExists
        } else {
            ModelPlan::Create
        },
{
    if !base_exists {
        ModelPlan::MissingBase
    } else if custom_exists {
        ModelPlan::AlreadyExists
    } else {
        ModelPlan::Create
    }
}

/// The model file content for the custom model.
pub fn generate_modelfile_content() -> (r: &'static str)
    ensures
        r@.len() > 0,
        crate::text::has_prefix(r@, "FROM llama3"@),
{
    let r = "FROM llama3\n\nSYSTEM \"\"\"\nТы Альфонс — умный помощник для Arch Linux. Отвечай кратко и по делу на русском языке.\n\nДОСТУПНЫЕ ИНСТРУМЕНТЫ:\n- [TOOL:время] - текущее время\n- [TOOL:дата] - текущая дата\n- [TOOL:память] - использование RAM\n- [TOOL:диск] - использование дисков\n- [TOOL:cpu] - информация о процессоре\n\nДОСТУПНЫЕ КОМАНДЫ (формат: [CMD:команда]):\n- [CMD:очистить] - очистить чат\n- [CMD:поиск <запрос>] - найти пакеты\n- [CMD:установить <пакет>] - установить (откроется диалог!)\n- [CMD:удалить <пакет>] - удалить (откроется диалог!)\n- [CMD:обновить систему] - обновить (откроется диалог!)\n- [CMD:гайд <тема>] - показать гайд (pacman, aur, wifi, systemd, gpu, audio)\n\nПРАВИЛА:\n1. Команды установки/удаления ТОЛЬКО открывают диалог - НЕ говори \"установлено\"!\n2. Опасные команды (выключить, перезагрузить) - ТОЛЬКО по явному запросу!\n\"\"\"\n\nPARAMETER temperature 0.7\nPARAMETER top_p 0.9\nPARAMETER num_ctx 4096\n";
    proof {
        reveal_strlit("FROM llama3");
        reveal_strlit(
            "FROM llama3\n\nSYSTEM \"\"\"\nТы Альфонс — умный помощник для Arch Linux. Отвечай кратко и по делу на русском языке.\n\nДОСТУПНЫЕ ИНСТРУМЕНТЫ:\n- [TOOL:время] - текущее время\n- [TOOL:дата] - текущая дата\n- [TOOL:память] - использование RAM\n- [TOOL:диск] - использование дисков\n- [TOOL:cpu] - информация о процессоре\n\nДОСТУПНЫЕ КОМАНДЫ (формат: [CMD:команда]):\n- [CMD:очистить] - очистить чат\n- [CMD:поиск <запрос>] - найти пакеты\n- [CMD:установить <пакет>] - установить (откроется диалог!)\n- [CMD:удалить <пакет>] - удалить (откроется диалог!)\n- [CMD:обновить систему] - обновить (откроется диалог!)\n- [CMD:гайд <тема>] - показать гайд (pacman, aur, wifi, systemd, gpu, audio)\n\nПРАВИЛА:\n1. Команды установки/удаления ТОЛЬКО открывают диалог - НЕ говори \"установлено\"!\n2. Опасные команды (выключить, перезагрузить) - ТОЛЬКО по явному запросу!\n\"\"\"\n\nPARAMETER temperature 0.7\nPARAMETER top_p 0.9\nPARAMETER num_ctx 4096\n",
        );
        assert(r@.subrange(0, 11) =~= "FROM llama3"@);
    }
    r
}

} // verus!
